//! Text as sequences of characters: conversion, numbers and concatenation.
use vstd::prelude::*;

verus! {

/// `String::push` appends one character.
pub assume_specification[ String::push ](s: &mut String, c: char)
    ensures
        final(s)@ == old(s)@.push(c),
;

/// A string as `{:?}` writes it: in double quotes, with escapes.
pub uninterp spec fn debug_chars(s: Seq<char>) -> Seq<char>;

/// The `{:?}` form of a string, by std's `Debug for str`: a function of the
/// characters alone.
#[verifier::external_body]
pub(crate) fn debug_string(s: &str) -> (quoted: String)
    ensures
        quoted@ == debug_chars(s@),
{
    format!("{:?}", s)
}

/// The character of a digit below sixteen, in lower case.
pub open spec fn digit_char(d: nat) -> char {
    if d < 10 {
        (('0' as nat) + d) as char
    } else {
        (('a' as nat) + d - 10) as char
    }
}

/// `n` in decimal, without leading zeros.
pub open spec fn decimal_chars(n: nat) -> Seq<char>
    decreases n,
{
    if n < 10 {
        seq![digit_char(n)]
    } else {
        decimal_chars(n / 10).push(digit_char(n % 10))
    }
}

/// `n` in lower-case hexadecimal, without leading zeros.
pub open spec fn hex_chars(n: nat) -> Seq<char>
    decreases n,
{
    if n < 16 {
        seq![digit_char(n)]
    } else {
        hex_chars(n / 16).push(digit_char(n % 16))
    }
}

/// A byte as exactly two lower-case hexadecimal digits.
pub open spec fn hex_byte_chars(b: u8) -> Seq<char> {
    seq![digit_char(b as nat / 16), digit_char(b as nat % 16)]
}

/// The character of a digit below sixteen.
pub fn digit(d: u8) -> (c: char)
    requires
        d < 16,
    ensures
        c == digit_char(d as nat),
{
    if d < 10 {
        (48 + d) as char
    } else {
        (87 + d) as char
    }
}

/// Writes `n` in decimal.
pub fn decimal(n: u64) -> (s: String)
    ensures
        s@ == decimal_chars(n as nat),
    decreases n,
{
    let mut s = if n < 10 {
        String::new()
    } else {
        decimal(n / 10)
    };
    s.push(digit((n % 10) as u8));
    assert(s@ == decimal_chars(n as nat));
    s
}

/// Writes `n` in hexadecimal.
pub fn hex(n: u64) -> (s: String)
    ensures
        s@ == hex_chars(n as nat),
    decreases n,
{
    let mut s = if n < 16 {
        String::new()
    } else {
        hex(n / 16)
    };
    s.push(digit((n % 16) as u8));
    assert(s@ == hex_chars(n as nat));
    s
}

/// Writes a byte as two hexadecimal digits.
pub fn hex_byte(b: u8) -> (s: String)
    ensures
        s@ == hex_byte_chars(b),
{
    let mut s = String::new();
    s.push(digit(b / 16));
    s.push(digit(b % 16));
    assert(s@ == hex_byte_chars(b));
    s
}

/// `bytes` in lower-case hexadecimal, two digits for each byte.
pub open spec fn hex_string_chars(bytes: Seq<u8>) -> Seq<char> {
    Seq::new(
        2 * bytes.len(),
        |i: int| hex_byte_chars(bytes[i / 2])[i % 2],
    )
}

/// Writes bytes in hexadecimal.
pub fn hex_string(bytes: &[u8]) -> (s: String)
    ensures
        s@ == hex_string_chars(bytes@),
{
    let mut s = String::new();
    let mut i: usize = 0;
    while i < bytes.len()
        invariant
            i <= bytes@.len(),
            s@ == hex_string_chars(bytes@.take(i as int)),
        decreases bytes@.len() - i,
    {
        s.push(digit(bytes[i] / 16));
        s.push(digit(bytes[i] % 16));
        assert(bytes@.take(i + 1).take(i as int) =~= bytes@.take(i as int));
        assert(s@ =~= hex_string_chars(bytes@.take(i + 1)));
        i = i + 1;
    }
    assert(bytes@.take(i as int) =~= bytes@);
    s
}

/// The value of a hexadecimal digit, in either case.
pub open spec fn hex_value(c: char) -> Option<nat> {
    if '0' <= c <= '9' {
        Some((c as int - '0' as int) as nat)
    } else if 'a' <= c <= 'f' {
        Some((c as int - 'a' as int + 10) as nat)
    } else if 'A' <= c <= 'F' {
        Some((c as int - 'A' as int + 10) as nat)
    } else {
        None
    }
}

/// The value of a hexadecimal digit that is given as a byte of ASCII.
pub open spec fn hex_digit_value(b: u8) -> Option<nat> {
    hex_value(b as char)
}

/// Reads a hexadecimal digit.
pub fn read_hex_digit(b: u8) -> (r: Option<u8>)
    ensures
        match r {
            Some(d) => d < 16 && hex_digit_value(b) == Some(d as nat),
            None => hex_digit_value(b) is None,
        },
{
    if b >= 48 && b <= 57 {
        Some(b - 48)
    } else if b >= 65 && b <= 70 {
        Some(b - 55)
    } else if b >= 97 && b <= 102 {
        Some(b - 87)
    } else {
        None
    }
}

/// The characters of `s`.
pub fn chars_of(s: &str) -> (v: Vec<char>)
    ensures
        v@ == s@,
{
    let mut v: Vec<char> = Vec::new();
    for c in it: s.chars()
        invariant
            v@ == it.seq().take(it.index()),
            it.seq() == s@,
    {
        v.push(c);
    }
    v
}

/// The string made of `chars`.
pub fn string_of(chars: &[char]) -> (s: String)
    ensures
        s@ == chars@,
{
    let mut s = String::new();
    let mut i: usize = 0;
    while i < chars.len()
        invariant
            i <= chars@.len(),
            s@ == chars@.take(i as int),
        decreases chars@.len() - i,
    {
        s.push(chars[i]);
        i = i + 1;
        assert(s@ =~= chars@.take(i as int));
    }
    assert(chars@.take(i as int) =~= chars@);
    s
}

/// The characters with the Unicode property White_Space.
pub open spec fn is_space(c: char) -> bool {
    let n = c as u32;
    ||| 0x09 <= n <= 0x0d
    ||| n == 0x20
    ||| n == 0x85
    ||| n == 0xa0
    ||| n == 0x1680
    ||| 0x2000 <= n <= 0x200a
    ||| n == 0x2028
    ||| n == 0x2029
    ||| n == 0x202f
    ||| n == 0x205f
    ||| n == 0x3000
}

/// Whether `c` is white space.
pub fn space(c: char) -> (b: bool)
    ensures
        b == is_space(c),
{
    let n: u32 = c as u32;
    (n >= 0x09 && n <= 0x0d) || n == 0x20 || n == 0x85 || n == 0xa0 || n == 0x1680 || (n >= 0x2000
        && n <= 0x200a) || n == 0x2028 || n == 0x2029 || n == 0x202f || n == 0x205f || n == 0x3000
}

/// `s` without leading white space.
pub open spec fn trimmed_start(s: Seq<char>) -> Seq<char>
    decreases s.len(),
{
    if s.len() > 0 && is_space(s[0]) {
        trimmed_start(s.skip(1))
    } else {
        s
    }
}

/// `s` without trailing white space.
pub open spec fn trimmed_end(s: Seq<char>) -> Seq<char>
    decreases s.len(),
{
    if s.len() > 0 && is_space(s.last()) {
        trimmed_end(s.drop_last())
    } else {
        s
    }
}

/// `s` without leading and trailing white space.
pub open spec fn trimmed(s: Seq<char>) -> Seq<char> {
    trimmed_end(trimmed_start(s))
}

/// Cuts leading white space off.
pub fn trim_start(s: &[char]) -> (t: &[char])
    ensures
        t@ == trimmed_start(s@),
{
    let mut from: usize = 0;
    assert(s@.skip(0) =~= s@);
    while from < s.len() && space(s[from])
        invariant
            from <= s@.len(),
            trimmed_start(s@) == trimmed_start(s@.skip(from as int)),
        decreases s@.len() - from,
    {
        assert(s@.skip(from as int).skip(1) =~= s@.skip(from + 1));
        from = from + 1;
    }
    &s[from..s.len()]
}

/// Cuts white space off both ends.
pub fn trim(s: &[char]) -> (t: &[char])
    ensures
        t@ == trimmed(s@),
{
    let rest = trim_start(s);
    let mut to: usize = rest.len();
    assert(rest@.take(to as int) =~= rest@);
    while to > 0 && space(rest[to - 1])
        invariant
            to <= rest@.len(),
            trimmed(s@) == trimmed_end(rest@.take(to as int)),
        decreases to,
    {
        assert(rest@.take(to as int).drop_last() =~= rest@.take(to - 1));
        to = to - 1;
    }
    &rest[0..to]
}

/// The position of the first `c` in `s`, or the length of `s`.
pub open spec fn position(s: Seq<char>, c: char) -> nat
    decreases s.len(),
{
    if s.len() == 0 || s[0] == c {
        0
    } else {
        1 + position(s.skip(1), c)
    }
}

/// The pieces of `s` between the separators.
pub open spec fn split(s: Seq<char>, separator: char) -> Seq<Seq<char>>
    decreases s.len(),
{
    let n = position(s, separator);
    if n >= s.len() {
        seq![s]
    } else {
        seq![s.take(n as int)] + split(s.skip(n as int + 1), separator)
    }
}

/// `position` is the first place where the character stands.
pub proof fn lemma_position(s: Seq<char>, c: char)
    ensures
        position(s, c) <= s.len(),
        position(s, c) < s.len() ==> s[position(s, c) as int] == c,
        forall|i: int| 0 <= i < position(s, c) ==> s[i] != c,
    decreases s.len(),
{
    if s.len() > 0 && s[0] != c {
        lemma_position(s.skip(1), c);
        assert forall|i: int| 0 <= i < position(s, c) implies s[i] != c by {
            if i > 0 {
                assert(s[i] == s.skip(1)[i - 1]);
            }
        }
    }
}

/// A place is the position if the character stands there and nowhere before.
pub proof fn lemma_position_is(s: Seq<char>, c: char, n: nat)
    requires
        n <= s.len(),
        n < s.len() ==> s[n as int] == c,
        forall|i: int| 0 <= i < n ==> s[i] != c,
    ensures
        position(s, c) == n,
{
    lemma_position(s, c);
}

/// The character sequences behind slices.
pub open spec fn pieces(v: Seq<&[char]>) -> Seq<Seq<char>> {
    Seq::new(v.len(), |i: int| v[i]@)
}

/// The character sequences behind strings.
pub open spec fn strings(v: Seq<String>) -> Seq<Seq<char>> {
    Seq::new(v.len(), |i: int| v[i]@)
}

/// Finds the first `c` in `s`.
pub fn find(s: &[char], c: char) -> (n: usize)
    ensures
        n == position(s@, c),
        n <= s@.len(),
{
    let mut i: usize = 0;
    while i < s.len() && s[i] != c
        invariant
            i <= s@.len(),
            forall|j: int| 0 <= j < i ==> s@[j] != c,
        decreases s@.len() - i,
    {
        i = i + 1;
    }
    proof {
        lemma_position_is(s@, c, i as nat);
    }
    i
}

/// Cuts `s` at every separator.
pub fn split_at_each<'a>(s: &'a [char], separator: char) -> (parts: Vec<&'a [char]>)
    ensures
        pieces(parts@) == split(s@, separator),
        parts@.len() > 0,
{
    let mut parts: Vec<&'a [char]> = Vec::new();
    let mut rest: &'a [char] = s;
    let mut n: usize = find(rest, separator);
    assert(pieces(parts@) + split(rest@, separator) =~= split(s@, separator));
    while n < rest.len()
        invariant
            n == position(rest@, separator),
            n <= rest@.len(),
            pieces(parts@) + split(rest@, separator) == split(s@, separator),
        decreases rest@.len(),
    {
        let ghost before = parts@;
        let piece = &rest[0..n];
        parts.push(piece);
        let tail = &rest[n + 1..rest.len()];
        proof {
            assert(piece@ =~= rest@.take(n as int));
            assert(tail@ =~= rest@.skip(n + 1));
            assert(pieces(parts@) =~= pieces(before) + seq![piece@]);
            assert(pieces(parts@) + split(tail@, separator) =~= pieces(before) + (seq![piece@]
                + split(tail@, separator)));
        }
        rest = tail;
        n = find(rest, separator);
    }
    let ghost before = parts@;
    parts.push(rest);
    assert(pieces(parts@) =~= pieces(before) + seq![rest@]);
    parts
}

/// Whether two character sequences are equal.
pub fn same(a: &[char], b: &[char]) -> (equal: bool)
    ensures
        equal == (a@ == b@),
{
    if a.len() != b.len() {
        return false;
    }
    let mut i: usize = 0;
    while i < a.len()
        invariant
            i <= a@.len(),
            a@.len() == b@.len(),
            forall|j: int| 0 <= j < i ==> a@[j] == b@[j],
        decreases a@.len() - i,
    {
        if a[i] != b[i] {
            return false;
        }
        i = i + 1;
    }
    assert(a@ =~= b@);
    true
}

/// Whether the characters of `a` are those of `b`.
pub fn equals(a: &[char], b: &str) -> (equal: bool)
    ensures
        equal == (a@ == b@),
{
    let other = chars_of(b);
    same(a, other.as_slice())
}

/// Whether two strings hold the same characters.
pub fn same_str(a: &str, b: &str) -> (equal: bool)
    ensures
        equal == (a@ == b@),
{
    let chars = chars_of(a);
    equals(chars.as_slice(), b)
}

/// The value of a decimal digit.
pub open spec fn digit_value(c: char) -> Option<nat> {
    if '0' <= c <= '9' {
        Some((c as int - '0' as int) as nat)
    } else {
        None
    }
}

/// The number that decimal digits stand for; `None` if a character is no digit.
pub open spec fn decimal_value(s: Seq<char>) -> Option<nat>
    decreases s.len(),
{
    if s.len() == 0 {
        Some(0)
    } else {
        match (decimal_value(s.drop_last()), digit_value(s.last())) {
            (Some(v), Some(d)) => Some(v * 10 + d),
            _ => None,
        }
    }
}

/// The number that hexadecimal digits stand for; `None` if a character is no
/// digit.
pub open spec fn hex_number(s: Seq<char>) -> Option<nat>
    decreases s.len(),
{
    if s.len() == 0 {
        Some(0)
    } else {
        match (hex_number(s.drop_last()), hex_value(s.last())) {
            (Some(v), Some(d)) => Some(v * 16 + d),
            _ => None,
        }
    }
}

/// A prefix of a number that is no number spoils the whole.
proof fn lemma_number_prefix(s: Seq<char>, n: int)
    requires
        0 <= n <= s.len(),
    ensures
        decimal_value(s) is Some ==> decimal_value(s.take(n)) is Some,
        hex_number(s) is Some ==> hex_number(s.take(n)) is Some,
    decreases s.len(),
{
    if n < s.len() {
        lemma_number_prefix(s.drop_last(), n);
        assert(s.drop_last().take(n) =~= s.take(n));
    } else {
        assert(s.take(n) =~= s);
    }
}

/// Reads at most four decimal digits.
pub fn read_decimal(s: &[char]) -> (r: Option<u32>)
    requires
        s@.len() <= 4,
    ensures
        match r {
            Some(v) => decimal_value(s@) == Some(v as nat) && v < 10000,
            None => decimal_value(s@) is None,
        },
{
    let mut v: u32 = 0;
    let mut i: usize = 0;
    let ghost bounds: Seq<int> = seq![1, 10, 100, 1000, 10000];
    while i < s.len()
        invariant
            i <= s@.len() <= 4,
            bounds == seq![1int, 10, 100, 1000, 10000],
            decimal_value(s@.take(i as int)) == Some(v as nat),
            v < bounds[i as int],
        decreases s@.len() - i,
    {
        assert(s@.take(i + 1).drop_last() =~= s@.take(i as int));
        let c: char = s[i];
        if c >= '0' && c <= '9' {
            v = v * 10 + (c as u32 - 48);
        } else {
            proof {
                lemma_number_prefix(s@, i + 1);
            }
            return None;
        }
        i = i + 1;
    }
    assert(s@.take(i as int) =~= s@);
    Some(v)
}

/// Reads at most four hexadecimal digits.
pub fn read_hex(s: &[char]) -> (r: Option<u32>)
    requires
        s@.len() <= 4,
    ensures
        match r {
            Some(v) => hex_number(s@) == Some(v as nat) && v < 0x10000,
            None => hex_number(s@) is None,
        },
{
    let mut v: u32 = 0;
    let mut i: usize = 0;
    let ghost bounds: Seq<int> = seq![1, 0x10, 0x100, 0x1000, 0x10000];
    while i < s.len()
        invariant
            i <= s@.len() <= 4,
            bounds == seq![1int, 0x10, 0x100, 0x1000, 0x10000],
            hex_number(s@.take(i as int)) == Some(v as nat),
            v < bounds[i as int],
        decreases s@.len() - i,
    {
        assert(s@.take(i + 1).drop_last() =~= s@.take(i as int));
        let c: char = s[i];
        if c >= '0' && c <= '9' {
            v = v * 16 + (c as u32 - 48);
        } else if c >= 'a' && c <= 'f' {
            v = v * 16 + (c as u32 - 87);
        } else if c >= 'A' && c <= 'F' {
            v = v * 16 + (c as u32 - 55);
        } else {
            proof {
                lemma_number_prefix(s@, i + 1);
            }
            return None;
        }
        i = i + 1;
    }
    assert(s@.take(i as int) =~= s@);
    Some(v)
}

/// The byte that a decimal text stands for: one digit or more, and no sign, with a
/// value of at most 255. Leading zeros are accepted.
pub open spec fn byte_value(s: Seq<char>) -> Option<nat> {
    if s.len() == 0 {
        None
    } else {
        match decimal_value(s) {
            Some(v) => if v <= 255 {
                Some(v)
            } else {
                None
            },
            None => None,
        }
    }
}

/// Reads a byte in decimal.
pub fn read_byte(s: &[char]) -> (r: Option<u32>)
    ensures
        match r {
            Some(v) => byte_value(s@) == Some(v as nat),
            None => byte_value(s@) is None,
        },
{
    if s.len() == 0 {
        return None;
    }
    let mut v: u32 = 0;
    let mut i: usize = 0;
    while i < s.len()
        invariant
            i <= s@.len(),
            s@.len() > 0,
            decimal_value(s@.take(i as int)) is Some,
            v <= 256,
            v == 256 ==> decimal_value(s@.take(i as int))->Some_0 > 255,
            v < 256 ==> decimal_value(s@.take(i as int)) == Some(v as nat),
        decreases s@.len() - i,
    {
        assert(s@.take(i + 1).drop_last() =~= s@.take(i as int));
        let c: char = s[i];
        if c >= '0' && c <= '9' {
            let next: u32 = v * 10 + (c as u32 - 48);
            v = if next > 255 {
                256
            } else {
                next
            };
        } else {
            proof {
                lemma_number_prefix(s@, i + 1);
            }
            return None;
        }
        i = i + 1;
    }
    assert(s@.take(i as int) =~= s@);
    if v == 256 {
        None
    } else {
        Some(v)
    }
}

/// Decimal text consists of digits, has no leading zero unless it is "0", and
/// reads back as the number.
pub proof fn lemma_decimal_round_trip(n: nat)
    ensures
        decimal_chars(n).len() >= 1,
        decimal_value(decimal_chars(n)) == Some(n),
        n > 0 ==> decimal_chars(n)[0] != '0',
        forall|i: int| 0 <= i < decimal_chars(n).len() ==> '0' <= #[trigger] decimal_chars(n)[i] <= '9',
    decreases n,
{
    let s = decimal_chars(n);
    assert(s.last() == digit_char(n % 10));
    assert(digit_value(digit_char(n % 10)) == Some(n % 10));
    if n >= 10 {
        lemma_decimal_round_trip(n / 10);
        assert(s.drop_last() =~= decimal_chars(n / 10));
        assert(s[0] == decimal_chars(n / 10)[0]);
        assert forall|i: int| 0 <= i < s.len() implies '0' <= #[trigger] s[i] <= '9' by {
            if i < s.len() - 1 {
                assert(s[i] == decimal_chars(n / 10)[i]);
            }
        }
    } else {
        assert(s.drop_last() =~= Seq::<char>::empty());
        assert(decimal_value(s.drop_last()) == Some(0nat));
    }
}

/// Splitting behind a piece without separators.
pub proof fn lemma_split_piece(piece: Seq<char>, separator: char, rest: Seq<char>)
    requires
        forall|i: int| 0 <= i < piece.len() ==> piece[i] != separator,
    ensures
        split(piece + seq![separator] + rest, separator) == seq![piece] + split(rest, separator),
        split(piece, separator) == seq![piece],
{
    let whole = piece + seq![separator] + rest;
    lemma_position_is(whole, separator, piece.len());
    lemma_position_is(piece, separator, piece.len());
    assert(whole.take(piece.len() as int) =~= piece);
    assert(whole.skip(piece.len() as int + 1) =~= rest);
}

/// The position of the first white space in `s`, or the length of `s`.
pub open spec fn space_position(s: Seq<char>) -> nat
    decreases s.len(),
{
    if s.len() == 0 || is_space(s[0]) {
        0
    } else {
        1 + space_position(s.skip(1))
    }
}

proof fn lemma_space_position(s: Seq<char>, n: nat)
    requires
        n <= s.len(),
        n < s.len() ==> is_space(s[n as int]),
        forall|i: int| 0 <= i < n ==> !is_space(s[i]),
    ensures
        space_position(s) == n,
    decreases s.len(),
{
    if n > 0 {
        assert forall|i: int| 0 <= i < n - 1 implies !is_space(s.skip(1)[i]) by {
            assert(s.skip(1)[i] == s[i + 1]);
        }
        lemma_space_position(s.skip(1), (n - 1) as nat);
    }
}

/// Cutting leading white space makes no text longer and leaves none in front.
pub proof fn lemma_trimmed_start_shorter(s: Seq<char>)
    ensures
        trimmed_start(s).len() <= s.len(),
        trimmed_start(s).len() > 0 ==> !is_space(trimmed_start(s)[0]),
    decreases s.len(),
{
    if s.len() > 0 && is_space(s[0]) {
        lemma_trimmed_start_shorter(s.skip(1));
    }
}

/// White space around a text that neither begins nor ends with it is cut off.
pub proof fn lemma_trimmed_padded(lead: Seq<char>, s: Seq<char>, trail: Seq<char>)
    requires
        s.len() > 0,
        !is_space(s[0]),
        !is_space(s.last()),
        forall|i: int| 0 <= i < lead.len() ==> is_space(#[trigger] lead[i]),
        forall|i: int| 0 <= i < trail.len() ==> is_space(#[trigger] trail[i]),
    ensures
        trimmed(lead + s + trail) == s,
    decreases lead.len(), trail.len(),
{
    let padded = lead + s + trail;
    if lead.len() > 0 {
        assert(padded[0] == lead[0]);
        assert(padded.skip(1) =~= lead.skip(1) + s + trail);
        lemma_trimmed_padded(lead.skip(1), s, trail);
    } else if trail.len() > 0 {
        lemma_trimmed_padded(lead, s, trail.drop_last());
        let shorter = lead + s + trail.drop_last();
        assert(padded[0] == s[0] && shorter[0] == s[0]);
        assert(padded.last() == trail.last());
        assert(padded.drop_last() =~= shorter);
    } else {
        assert(padded =~= s);
    }
}

/// The words of `s`: the pieces between stretches of white space.
pub open spec fn words(s: Seq<char>) -> Seq<Seq<char>>
    decreases s.len(),
{
    proof {
        lemma_trimmed_start_shorter(s);
    }
    let rest = trimmed_start(s);
    if rest.len() == 0 {
        Seq::empty()
    } else {
        let n = space_position(rest) as int;
        if 0 < n <= rest.len() {
            seq![rest.take(n)] + words(rest.skip(n))
        } else {
            Seq::empty()
        }
    }
}

/// Cuts `s` into words.
pub fn split_words<'a>(s: &'a [char]) -> (parts: Vec<&'a [char]>)
    ensures
        pieces(parts@) == words(s@),
{
    let mut parts: Vec<&'a [char]> = Vec::new();
    let mut rest: &'a [char] = trim_start(s);
    proof {
        lemma_trimmed_start_shorter(s@);
    }
    assert(trimmed_start(rest@) == rest@);
    assert(words(rest@) == words(s@));
    assert(pieces(parts@) + words(rest@) =~= words(s@));
    while rest.len() > 0
        invariant
            rest@.len() > 0 ==> !is_space(rest@[0]),
            trimmed_start(rest@) == rest@,
            pieces(parts@) + words(rest@) == words(s@),
        decreases rest@.len(),
    {
        let mut n: usize = 0;
        while n < rest.len() && !space(rest[n])
            invariant
                n <= rest@.len(),
                forall|i: int| 0 <= i < n ==> !is_space(rest@[i]),
            decreases rest@.len() - n,
        {
            n = n + 1;
        }
        let ghost before = parts@;
        let word = &rest[0..n];
        let behind = &rest[n..rest.len()];
        parts.push(word);
        let next = trim_start(behind);
        proof {
            lemma_space_position(rest@, n as nat);
            lemma_trimmed_start_shorter(behind@);
            assert(word@ =~= rest@.take(n as int));
            assert(behind@ =~= rest@.skip(n as int));
            assert(trimmed_start(next@) == next@);
            assert(words(next@) == words(behind@));
            assert(words(rest@) == seq![word@] + words(behind@));
            assert(pieces(parts@) =~= pieces(before) + seq![word@]);
            assert(pieces(parts@) + words(next@) =~= pieces(before) + (seq![word@] + words(
                next@,
            )));
        }
        rest = next;
    }
    assert(words(rest@) =~= Seq::<Seq<char>>::empty());
    assert(pieces(parts@) + words(rest@) =~= pieces(parts@));
    parts
}

/// The word behind the first `marker` that has one behind it.
pub open spec fn word_after(list: Seq<Seq<char>>, marker: Seq<char>) -> Option<Seq<char>>
    decreases list.len(),
{
    if list.len() < 2 {
        None
    } else if list[0] == marker {
        Some(list[1])
    } else {
        word_after(list.skip(1), marker)
    }
}

/// Finds the word behind `marker` in a text.
pub fn find_word_after(s: &str, marker: &str) -> (r: Option<String>)
    ensures
        match r {
            Some(word) => word_after(words(s@), marker@) == Some(word@),
            None => word_after(words(s@), marker@) is None,
        },
{
    let chars = chars_of(s);
    let parts = split_words(chars.as_slice());
    let ghost all = pieces(parts@);
    let mut i: usize = 0;
    assert(all.skip(0) =~= all);
    while i < parts.len()
        invariant
            i <= parts@.len(),
            all == pieces(parts@),
            all == words(s@),
            word_after(all, marker@) == word_after(all.skip(i as int), marker@),
        decreases parts@.len() - i,
    {
        assert(all.skip(i as int).skip(1) =~= all.skip(i + 1));
        if i + 1 < parts.len() && equals(parts[i], marker) {
            assert(all.skip(i as int)[0] == parts@[i as int]@);
            assert(all.skip(i as int)[1] == parts@[i + 1]@);
            return Some(string_of(parts[i + 1]));
        }
        proof {
            if i + 1 < parts@.len() {
                assert(all.skip(i as int)[0] == parts@[i as int]@);
            }
        }
        i = i + 1;
    }
    None
}

/// Whether `part` stands somewhere in `s`.
pub open spec fn includes(s: Seq<char>, part: Seq<char>) -> bool {
    exists|i: int|
        0 <= i <= s.len() - part.len() && #[trigger] s.subrange(i, i + part.len()) == part
}

/// Looks for `part` in `s`.
pub fn contains(s: &str, part: &str) -> (found: bool)
    ensures
        found == includes(s@, part@),
{
    let text = chars_of(s);
    let wanted = chars_of(part);
    if wanted.len() > text.len() {
        return false;
    }
    let last: usize = text.len() - wanted.len();
    let mut i: usize = 0;
    loop
        invariant
            text@ == s@,
            wanted@ == part@,
            i <= last,
            last == text.len() - wanted.len(),
            forall|j: int|
                0 <= j < i ==> #[trigger] text@.subrange(j, j + wanted@.len()) != wanted@,
        decreases last - i,
    {
        if same(&text.as_slice()[i..i + wanted.len()], wanted.as_slice()) {
            assert(s@.subrange(i as int, i + part@.len()) == part@);
            return true;
        }
        if i == last {
            return false;
        }
        i = i + 1;
    }
}

/// A letter of ASCII in lower case; other characters as they are.
pub open spec fn ascii_lower(c: char) -> char {
    if 'A' <= c <= 'Z' {
        (c as int + 32) as char
    } else {
        c
    }
}

/// Whether two texts are equal but for the case of ASCII letters.
pub open spec fn equal_ignoring_case(a: Seq<char>, b: Seq<char>) -> bool {
    a.len() == b.len() && forall|i: int|
        0 <= i < a.len() ==> ascii_lower(#[trigger] a[i]) == ascii_lower(b[i])
}

fn lower(c: char) -> (n: u32)
    ensures
        n == ascii_lower(c) as u32,
{
    if c >= 'A' && c <= 'Z' {
        c as u32 + 32
    } else {
        c as u32
    }
}

/// Compares two texts without regard to the case of ASCII letters.
pub fn same_ignoring_case(a: &str, b: &str) -> (equal: bool)
    ensures
        equal == equal_ignoring_case(a@, b@),
{
    let left = chars_of(a);
    let right = chars_of(b);
    if left.len() != right.len() {
        return false;
    }
    let mut i: usize = 0;
    while i < left.len()
        invariant
            i <= left@.len(),
            left@.len() == right@.len(),
            left@ == a@,
            right@ == b@,
            forall|j: int| 0 <= j < i ==> ascii_lower(#[trigger] left@[j]) == ascii_lower(right@[j]),
        decreases left@.len() - i,
    {
        if lower(left[i]) != lower(right[i]) {
            return false;
        }
        i = i + 1;
    }
    true
}

/// A text without the separator is one piece.
pub proof fn law_split_without_separator(s: Seq<char>, separator: char)
    requires
        !s.contains(separator),
    ensures
        split(s, separator) == seq![s],
{
    lemma_position(s, separator);
    if position(s, separator) < s.len() {
        assert(s.contains(s[position(s, separator) as int]));
    }
}

/// A separator parts a text: its pieces are those in front of it, then those behind
/// it.
pub proof fn law_split_at_separator(front: Seq<char>, separator: char, back: Seq<char>)
    ensures
        split(front.push(separator) + back, separator) == split(front, separator) + split(
            back,
            separator,
        ),
    decreases front.len(),
{
    let whole = front.push(separator) + back;
    let n = position(front, separator);
    lemma_position(front, separator);
    assert(whole[n as int] == separator);
    assert forall|i: int| 0 <= i < n implies whole[i] != separator by {
        assert(whole[i] == front[i]);
    }
    lemma_position_is(whole, separator, n);
    assert(whole.take(n as int) =~= front.take(n as int));
    if n >= front.len() {
        assert(front.take(n as int) =~= front);
        assert(whole.skip(n as int + 1) =~= back);
    } else {
        let rest = front.skip(n as int + 1);
        assert(whole.skip(n as int + 1) =~= rest.push(separator) + back);
        law_split_at_separator(rest, separator, back);
        assert(split(whole, separator) =~= split(front, separator) + split(back, separator));
    }
}

/// Nothing is left of white space.
pub proof fn law_blank_text_is_trimmed_away(s: Seq<char>)
    requires
        forall|i: int| 0 <= i < s.len() ==> is_space(#[trigger] s[i]),
    ensures
        trimmed(s) == Seq::<char>::empty(),
    decreases s.len(),
{
    if s.len() > 0 {
        law_blank_text_is_trimmed_away(s.skip(1));
    }
}

/// What is left of a text neither begins nor ends with white space, and nothing but
/// white space was cut off around it.
pub proof fn law_trimming_cuts_white_space_only(s: Seq<char>)
    ensures
        trimmed(s).len() > 0 ==> !is_space(trimmed(s)[0]) && !is_space(trimmed(s).last()),
        exists|lead: Seq<char>, trail: Seq<char>|
            #![trigger lead + trimmed(s) + trail]
            s == lead + trimmed(s) + trail && (forall|i: int|
                0 <= i < lead.len() ==> is_space(#[trigger] lead[i])) && (forall|i: int|
                0 <= i < trail.len() ==> is_space(#[trigger] trail[i])),
    decreases s.len(),
{
    if s.len() == 0 {
        let none = Seq::<char>::empty();
        assert(s =~= none + trimmed(s) + none);
    } else if is_space(s[0]) {
        law_trimming_cuts_white_space_only(s.skip(1));
        let t = trimmed(s);
        let (lead, trail) = choose|lead: Seq<char>, trail: Seq<char>|
            #![trigger lead + t + trail]
            s.skip(1) == lead + t + trail && (forall|i: int|
                0 <= i < lead.len() ==> is_space(#[trigger] lead[i])) && (forall|i: int|
                0 <= i < trail.len() ==> is_space(#[trigger] trail[i]));
        let longer = seq![s[0]] + lead;
        assert(s =~= seq![s[0]] + s.skip(1));
        assert(s =~= longer + t + trail);
        assert forall|i: int| 0 <= i < longer.len() implies is_space(#[trigger] longer[i]) by {
            if i > 0 {
                assert(longer[i] == lead[i - 1]);
            }
        }
    } else {
        lemma_trimmed_end_parts(s);
        let trail = s.skip(trimmed(s).len() as int);
        let none = Seq::<char>::empty();
        assert(s =~= none + trimmed(s) + trail);
    }
}

proof fn lemma_trimmed_end_parts(s: Seq<char>)
    ensures
        trimmed_end(s).len() <= s.len(),
        trimmed_end(s) == s.take(trimmed_end(s).len() as int),
        trimmed_end(s).len() > 0 ==> !is_space(trimmed_end(s).last()),
        forall|i: int| trimmed_end(s).len() <= i < s.len() ==> is_space(#[trigger] s[i]),
    decreases s.len(),
{
    if s.len() > 0 && is_space(s.last()) {
        let shorter = s.drop_last();
        lemma_trimmed_end_parts(shorter);
        assert(s.take(trimmed_end(s).len() as int) =~= shorter.take(trimmed_end(s).len() as int));
        assert forall|i: int| trimmed_end(s).len() <= i < s.len() implies is_space(
            #[trigger] s[i],
        ) by {
            if i < shorter.len() {
                assert(s[i] == shorter[i]);
            }
        }
    } else {
        assert(s.take(s.len() as int) =~= s);
    }
}

/// Text without white space is one word, and white space is none.
pub proof fn law_single_word(s: Seq<char>)
    ensures
        s.len() > 0 && (forall|i: int| 0 <= i < s.len() ==> !is_space(#[trigger] s[i])) ==> words(s)
            == seq![s],
        (forall|i: int| 0 <= i < s.len() ==> is_space(#[trigger] s[i])) ==> words(s) == Seq::<
            Seq<char>,
        >::empty(),
    decreases s.len(),
{
    if s.len() > 0 {
        if forall|i: int| 0 <= i < s.len() ==> !is_space(#[trigger] s[i]) {
            lemma_space_position(s, s.len());
            assert(s.take(s.len() as int) =~= s);
            assert(s.skip(s.len() as int) =~= Seq::<char>::empty());
            assert(words(Seq::<char>::empty()) =~= Seq::<Seq<char>>::empty());
            assert(words(s) =~= seq![s]);
        }
        if forall|i: int| 0 <= i < s.len() ==> is_space(#[trigger] s[i]) {
            law_single_word(s.skip(1));
            assert(is_space(s[0]));
            assert forall|i: int| 0 <= i < s.skip(1).len() implies is_space(
                #[trigger] s.skip(1)[i],
            ) by {
                assert(s.skip(1)[i] == s[i + 1]);
            }
            lemma_words_of_rest(s);
        }
    }
}

proof fn lemma_words_of_rest(s: Seq<char>)
    requires
        s.len() > 0,
        is_space(s[0]),
    ensures
        words(s) == words(s.skip(1)),
{
    assert(trimmed_start(s) == trimmed_start(s.skip(1)));
}

/// White space parts a text: its words are those in front of it, then those behind
/// it.
#[verifier::rlimit(40)]
pub proof fn law_words_at_white_space(front: Seq<char>, c: char, back: Seq<char>)
    requires
        is_space(c),
    ensures
        words(front.push(c) + back) == words(front) + words(back),
    decreases front.len(),
{
    let whole = front.push(c) + back;
    if front.len() == 0 {
        assert(whole.skip(1) =~= back);
        lemma_words_of_rest(whole);
        assert(words(whole) =~= words(front) + words(back));
    } else if is_space(front[0]) {
        assert(whole[0] == front[0]);
        assert(whole.skip(1) =~= front.skip(1).push(c) + back);
        lemma_words_of_rest(whole);
        lemma_words_of_rest(front);
        law_words_at_white_space(front.skip(1), c, back);
    } else {
        let n = space_position(front);
        lemma_space_position_parts(front);
        assert(whole[0] == front[0]);
        assert forall|i: int| 0 <= i < n implies !is_space(whole[i]) by {
            assert(whole[i] == front[i]);
        }
        assert(is_space(whole[n as int]));
        lemma_space_position(whole, n);
        assert(whole.take(n as int) =~= front.take(n as int));
        assert(whole.skip(n as int) =~= front.skip(n as int).push(c) + back);
        law_words_at_white_space(front.skip(n as int), c, back);
        assert(words(whole) =~= words(front) + words(back));
    }
}

proof fn lemma_space_position_parts(s: Seq<char>)
    ensures
        space_position(s) <= s.len(),
        space_position(s) < s.len() ==> is_space(s[space_position(s) as int]),
        forall|i: int| 0 <= i < space_position(s) ==> !is_space(s[i]),
        s.len() > 0 && !is_space(s[0]) ==> space_position(s) > 0,
    decreases s.len(),
{
    if s.len() > 0 && !is_space(s[0]) {
        lemma_space_position_parts(s.skip(1));
        assert forall|i: int| 0 <= i < space_position(s) implies !is_space(s[i]) by {
            if i > 0 {
                assert(s[i] == s.skip(1)[i - 1]);
            }
        }
    }
}

/// The word that is found is the one behind the first marker.
pub proof fn law_word_behind_first_marker(list: Seq<Seq<char>>, marker: Seq<char>, i: int)
    requires
        0 <= i < list.len() - 1,
        list[i] == marker,
        forall|j: int| 0 <= j < i ==> list[j] != marker,
    ensures
        word_after(list, marker) == Some(list[i + 1]),
    decreases list.len(),
{
    if i > 0 {
        let rest = list.skip(1);
        assert(list[0] != marker);
        assert(rest[i - 1] == list[i]);
        assert(rest[i] == list[i + 1]);
        assert forall|j: int| 0 <= j < i - 1 implies rest[j] != marker by {
            assert(rest[j] == list[j + 1]);
        }
        law_word_behind_first_marker(rest, marker, i - 1);
    }
}

/// A word is found only behind a marker.
pub proof fn law_no_word_without_marker(list: Seq<Seq<char>>, marker: Seq<char>)
    requires
        word_after(list, marker) is Some,
    ensures
        exists|i: int|
            0 <= i < list.len() - 1 && #[trigger] list[i] == marker && word_after(list, marker)
                == Some(list[i + 1]),
    decreases list.len(),
{
    if list[0] == marker {
        assert(list[0] == marker && word_after(list, marker) == Some(list[1]));
    } else {
        let rest = list.skip(1);
        law_no_word_without_marker(rest, marker);
        let k = choose|k: int|
            0 <= k < rest.len() - 1 && #[trigger] rest[k] == marker && word_after(rest, marker)
                == Some(rest[k + 1]);
        assert(list[k + 1] == rest[k] && list[k + 2] == rest[k + 1]);
        assert(word_after(list, marker) == Some(list[(k + 1) + 1]));
    }
}

/// White space is what Unicode calls so: twenty-five characters.
pub proof fn law_white_space(c: char)
    ensures
        is_space(c) <==> c == '\u{9}' || c == '\u{a}' || c == '\u{b}' || c == '\u{c}' || c
            == '\u{d}' || c == ' ' || c == '\u{85}' || c == '\u{a0}' || c == '\u{1680}' || c
            == '\u{2000}' || c == '\u{2001}' || c == '\u{2002}' || c == '\u{2003}' || c
            == '\u{2004}' || c == '\u{2005}' || c == '\u{2006}' || c == '\u{2007}' || c
            == '\u{2008}' || c == '\u{2009}' || c == '\u{200a}' || c == '\u{2028}' || c
            == '\u{2029}' || c == '\u{202f}' || c == '\u{205f}' || c == '\u{3000}',
{
}

/// A digit stands for its value, a letter in either case; nothing else is a digit.
pub proof fn law_digits(c: char, d: nat)
    requires
        d < 16,
    ensures
        digit_char(d) as u32 == (if d < 10 {
            48 + d
        } else {
            87 + d
        }),
        hex_value(c) == Some(d) <==> c as u32 == (if d < 10 {
            48 + d
        } else {
            87 + d
        }) || (d >= 10 && c as u32 == 55 + d),
        hex_value(c) is Some <==> '0' <= c <= '9' || 'a' <= c <= 'f' || 'A' <= c <= 'F',
        digit_value(c) == (if '0' <= c <= '9' {
            Some((c as u32 - 48) as nat)
        } else {
            None
        }),
{
}

/// Every further digit counts for one, and those before it for ten, or sixteen, times as
/// much; what is no digit spoils the number.
pub proof fn law_place_value(s: Seq<char>, c: char)
    ensures
        decimal_value(Seq::empty()) == Some(0nat),
        hex_number(Seq::empty()) == Some(0nat),
        decimal_value(s) is Some && '0' <= c <= '9' ==> decimal_value(s.push(c)) == Some(
            (decimal_value(s)->Some_0 * 10 + (c as u32 - 48)) as nat,
        ),
        decimal_value(s) is None || !('0' <= c <= '9') ==> decimal_value(s.push(c)) is None,
        hex_number(s) is Some && hex_value(c) is Some ==> hex_number(s.push(c)) == Some(
            hex_number(s)->Some_0 * 16 + hex_value(c)->Some_0,
        ),
        hex_number(s) is None || hex_value(c) is None ==> hex_number(s.push(c)) is None,
{
    assert(s.push(c).drop_last() =~= s);
}

/// A number in hexadecimal has no leading zero unless it is zero, is as short as can be,
/// and reads back as the number.
#[verifier::rlimit(40)]
pub proof fn law_hex_round_trip(n: nat)
    ensures
        hex_chars(n).len() >= 1,
        hex_number(hex_chars(n)) == Some(n),
        n > 0 ==> hex_chars(n)[0] != '0',
        n < 0x1_0000 ==> hex_chars(n).len() <= 4,
        n < 0x1000 ==> hex_chars(n).len() <= 3,
        n < 0x100 ==> hex_chars(n).len() <= 2,
        n < 0x10 ==> hex_chars(n).len() == 1,
        forall|i: int|
            0 <= i < hex_chars(n).len() ==> ('0' <= #[trigger] hex_chars(n)[i] <= '9' || 'a'
                <= hex_chars(n)[i] <= 'f'),
    decreases n,
{
    let s = hex_chars(n);
    assert(s.last() == digit_char(n % 16));
    assert(hex_value(digit_char(n % 16)) == Some(n % 16));
    if n >= 16 {
        law_hex_round_trip(n / 16);
        assert(s.drop_last() =~= hex_chars(n / 16));
        assert(hex_number(s) == Some((n / 16) * 16 + n % 16));
        assert(s[0] == hex_chars(n / 16)[0]);
        assert forall|i: int| 0 <= i < s.len() implies ('0' <= #[trigger] s[i] <= '9' || 'a' <= s[i]
            <= 'f') by {
            if i < s.len() - 1 {
                assert(s[i] == hex_chars(n / 16)[i]);
            }
        }
    } else {
        assert(s.drop_last() =~= Seq::<char>::empty());
        assert(hex_number(s.drop_last()) == Some(0nat));
        assert(hex_number(s) == Some(n));
    }
}

/// Bytes in hexadecimal have two digits each, the high one first.
pub proof fn law_bytes_in_hexadecimal(bytes: Seq<u8>, i: int)
    requires
        0 <= i < bytes.len(),
    ensures
        hex_string_chars(bytes).len() == 2 * bytes.len(),
        hex_string_chars(bytes)[2 * i] as u32 == (if bytes[i] / 16 < 10 {
            48 + bytes[i] / 16
        } else {
            87 + bytes[i] / 16
        }),
        hex_string_chars(bytes)[2 * i + 1] as u32 == (if bytes[i] % 16 < 10 {
            48 + bytes[i] % 16
        } else {
            87 + bytes[i] % 16
        }),
        hex_byte_chars(bytes[i]) == hex_string_chars(bytes).subrange(2 * i, 2 * i + 2),
{
    assert((2 * i) / 2 == i && (2 * i) % 2 == 0);
    assert((2 * i + 1) / 2 == i && (2 * i + 1) % 2 == 1);
    assert(hex_byte_chars(bytes[i]) =~= hex_string_chars(bytes).subrange(2 * i, 2 * i + 2));
}

/// Texts are equal but for case exactly if every pair of letters is the same one, in
/// upper or lower case, and everything else is the same.
pub proof fn law_equal_but_for_case(a: char, b: char)
    ensures
        equal_ignoring_case(seq![a], seq![b]) <==> a == b || ('A' <= a <= 'Z' && b as u32 == a as u32
            + 32) || ('A' <= b <= 'Z' && a as u32 == b as u32 + 32),
{
    assert(seq![a][0] == a && seq![b][0] == b);
}

/// A part is included in every text that has it anywhere, and in no other.
pub proof fn law_includes(front: Seq<char>, part: Seq<char>, back: Seq<char>, s: Seq<char>)
    ensures
        includes(front + part + back, part),
        includes(s, part) ==> exists|a: Seq<char>, b: Seq<char>| s == #[trigger] (a + part + b),
{
    let whole = front + part + back;
    let i = front.len() as int;
    assert(whole.subrange(i, i + part.len()) =~= part);
    if includes(s, part) {
        let k = choose|k: int|
            0 <= k <= s.len() - part.len() && #[trigger] s.subrange(k, k + part.len()) == part;
        assert(s =~= s.take(k) + part + s.skip(k + part.len()));
    }
}

/// Pieces with a separator between each two.
pub open spec fn joined(parts: Seq<Seq<char>>, separator: char) -> Seq<char>
    decreases parts.len(),
{
    if parts.len() == 0 {
        Seq::empty()
    } else if parts.len() == 1 {
        parts[0]
    } else {
        joined(parts.drop_last(), separator).push(separator) + parts.last()
    }
}

/// Splitting pieces that were joined gives the pieces back.
pub proof fn law_split_undoes_joining(parts: Seq<Seq<char>>, separator: char)
    requires
        parts.len() > 0,
        forall|i: int| 0 <= i < parts.len() ==> !(#[trigger] parts[i]).contains(separator),
    ensures
        split(joined(parts, separator), separator) == parts,
    decreases parts.len(),
{
    assert(parts.last() == parts[parts.len() - 1]);
    law_split_without_separator(parts.last(), separator);
    if parts.len() == 1 {
        assert(parts =~= seq![parts[0]]);
    } else {
        let front = parts.drop_last();
        assert forall|i: int| 0 <= i < front.len() implies !(#[trigger] front[i]).contains(
            separator,
        ) by {
            assert(front[i] == parts[i]);
        }
        law_split_undoes_joining(front, separator);
        law_split_at_separator(joined(front, separator), separator, parts.last());
        assert(parts =~= front + seq![parts.last()]);
    }
}

/// Joining the pieces of a text gives the text back, and no piece holds the separator.
pub proof fn law_joining_undoes_splitting(s: Seq<char>, separator: char)
    ensures
        split(s, separator).len() > 0,
        joined(split(s, separator), separator) == s,
        forall|i: int|
            0 <= i < split(s, separator).len() ==> !(#[trigger] split(s, separator)[i]).contains(
                separator,
            ),
    decreases s.len(),
{
    lemma_position(s, separator);
    let n = position(s, separator) as int;
    let parts = split(s, separator);
    if n >= s.len() {
        assert(parts =~= seq![s]);
    } else {
        let head = s.take(n);
        let rest = s.skip(n + 1);
        let back = split(rest, separator);
        law_joining_undoes_splitting(rest, separator);
        lemma_joined_front(head, back, separator);
        assert(s =~= head.push(separator) + rest);
        assert forall|i: int| 0 <= i < parts.len() implies !(#[trigger] parts[i]).contains(
            separator,
        ) by {
            if i == 0 {
                assert(parts[0] == head);
            } else {
                assert(parts[i] == back[i - 1]);
            }
        }
    }
}

proof fn lemma_joined_front(head: Seq<char>, parts: Seq<Seq<char>>, separator: char)
    requires
        parts.len() > 0,
    ensures
        joined(seq![head] + parts, separator) == head.push(separator) + joined(parts, separator),
    decreases parts.len(),
{
    let whole = seq![head] + parts;
    assert(whole.last() == parts.last());
    if parts.len() == 1 {
        assert(whole.drop_last() =~= seq![head]);
        assert(joined(seq![head], separator) == head);
        assert(parts.last() == parts[0]);
        assert(joined(whole, separator) == head.push(separator) + parts[0]);
    } else {
        assert(whole.drop_last() =~= seq![head] + parts.drop_last());
        lemma_joined_front(head, parts.drop_last(), separator);
        assert(joined(whole, separator) =~= head.push(separator) + joined(parts, separator));
    }
}

/// A text is a byte exactly if it is made of digits, at least one, and stands for at most
/// 255.
pub proof fn law_byte_text(s: Seq<char>, v: nat)
    ensures
        byte_value(s) == Some(v) <==> s.len() > 0 && decimal_value(s) == Some(v) && v <= 255,
{
}

} // verus!
