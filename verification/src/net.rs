//! Network addresses as plain values, and their text forms.
use vstd::prelude::*;

use crate::text;

verus! {

/// An IP address. The integer holds the address bits, the first byte or group
/// being the most significant.
#[derive(Debug, Clone, Copy, PartialEq, Eq, Structural)]
pub enum IpAddress {
    V4(u32),
    V6(u128),
}

/// An IP address with a port; IPv6 adds the flow label and the scope.
#[derive(Debug, Clone, Copy, PartialEq, Eq, Structural)]
pub enum SocketAddress {
    V4 { ip: u32, port: u16 },
    V6 { ip: u128, port: u16, flowinfo: u32, scope_id: u32 },
}

impl SocketAddress {
    /// The address without the port.
    pub fn ip(&self) -> (ip: IpAddress)
        ensures
            ip == (match *self {
                SocketAddress::V4 { ip, .. } => IpAddress::V4(ip),
                SocketAddress::V6 { ip, .. } => IpAddress::V6(ip),
            }),
    {
        match self {
            SocketAddress::V4 { ip, .. } => IpAddress::V4(*ip),
            SocketAddress::V6 { ip, .. } => IpAddress::V6(*ip),
        }
    }
}

/// The value of an octet of a dotted quad: one to three decimal digits, at most
/// 255, without a leading zero.
pub open spec fn octet_value(s: Seq<char>) -> Option<nat> {
    if 1 <= s.len() <= 3 && (s.len() == 1 || s[0] != '0') {
        match text::decimal_value(s) {
            Some(v) => if v <= 255 {
                Some(v)
            } else {
                None
            },
            None => None,
        }
    } else {
        None
    }
}

/// The address that a dotted quad stands for.
pub open spec fn parsed_ipv4(s: Seq<char>) -> Option<u32> {
    let parts = text::split(s, '.');
    if parts.len() == 4 {
        match (
            octet_value(parts[0]),
            octet_value(parts[1]),
            octet_value(parts[2]),
            octet_value(parts[3]),
        ) {
            (Some(a), Some(b), Some(c), Some(d)) => Some(
                (a * 0x100_0000 + b * 0x1_0000 + c * 0x100 + d) as u32,
            ),
            _ => None,
        }
    } else {
        None
    }
}

/// Reads an octet.
pub fn read_octet(s: &[char]) -> (r: Option<u32>)
    ensures
        match r {
            Some(v) => octet_value(s@) == Some(v as nat) && v <= 255,
            None => octet_value(s@) is None,
        },
{
    if s.len() < 1 || s.len() > 3 || (s.len() > 1 && s[0] == '0') {
        return None;
    }
    match text::read_decimal(s) {
        Some(v) => if v <= 255 {
            Some(v)
        } else {
            None
        },
        None => None,
    }
}

/// Reads a dotted quad.
pub fn parse_ipv4(s: &[char]) -> (r: Option<u32>)
    ensures
        r == parsed_ipv4(s@),
{
    let parts = text::split_at_each(s, '.');
    assert(text::pieces(parts@).len() == parts@.len());
    if parts.len() != 4 {
        return None;
    }
    assert(forall|i: int| 0 <= i < 4 ==> text::pieces(parts@)[i] == parts@[i]@);
    match (read_octet(parts[0]), read_octet(parts[1]), read_octet(parts[2]), read_octet(parts[3])) {
        (Some(a), Some(b), Some(c), Some(d)) => Some(
            a * 0x100_0000 + b * 0x1_0000 + c * 0x100 + d,
        ),
        _ => None,
    }
}

/// The value of a group of an IPv6 address: one to four hexadecimal digits.
pub open spec fn group_value(s: Seq<char>) -> Option<nat> {
    if 1 <= s.len() <= 4 {
        text::hex_number(s)
    } else {
        None
    }
}

/// The values of a list of groups.
pub open spec fn group_values(parts: Seq<Seq<char>>) -> Option<Seq<nat>>
    decreases parts.len(),
{
    if parts.len() == 0 {
        Some(Seq::empty())
    } else {
        match (group_values(parts.drop_last()), group_value(parts.last())) {
            (Some(front), Some(last)) => Some(front.push(last)),
            _ => None,
        }
    }
}

/// The groups before a `::`: none at all, or groups separated by colons.
pub open spec fn head_groups(s: Seq<char>) -> Option<Seq<nat>> {
    if s.len() == 0 {
        Some(Seq::empty())
    } else {
        group_values(text::split(s, ':'))
    }
}

/// Groups separated by colons, where a dotted quad may stand for the last two.
pub open spec fn full_groups(s: Seq<char>) -> Option<Seq<nat>> {
    let parts = text::split(s, ':');
    match parsed_ipv4(parts.last()) {
        Some(quad) => match group_values(parts.drop_last()) {
            Some(front) => Some(front.push(quad as nat / 0x1_0000).push(quad as nat % 0x1_0000)),
            None => None,
        },
        None => group_values(parts),
    }
}

/// The groups behind a `::`.
pub open spec fn tail_groups(s: Seq<char>) -> Option<Seq<nat>> {
    if s.len() == 0 {
        Some(Seq::empty())
    } else {
        full_groups(s)
    }
}

/// The position of the first `::`, or the length of `s`.
pub open spec fn gap_position(s: Seq<char>) -> nat
    decreases s.len(),
{
    if s.len() < 2 {
        s.len()
    } else if s[0] == ':' && s[1] == ':' {
        0
    } else {
        1 + gap_position(s.skip(1))
    }
}

/// The number that a list of groups stands for.
pub open spec fn groups_number(groups: Seq<nat>) -> nat
    decreases groups.len(),
{
    if groups.len() == 0 {
        0
    } else {
        groups_number(groups.drop_last()) * 0x1_0000 + groups.last()
    }
}

/// The address that an IPv6 text stands for: eight groups, or fewer with a `::`
/// for at least one group of zeros.
pub open spec fn parsed_ipv6(s: Seq<char>) -> Option<u128> {
    let gap = gap_position(s);
    if gap >= s.len() {
        match full_groups(s) {
            Some(groups) => if groups.len() == 8 {
                Some(groups_number(groups) as u128)
            } else {
                None
            },
            None => None,
        }
    } else {
        match (head_groups(s.take(gap as int)), tail_groups(s.skip(gap as int + 2))) {
            (Some(head), Some(tail)) => if head.len() + tail.len() <= 7 {
                let zeros = Seq::new((8 - head.len() - tail.len()) as nat, |i: int| 0nat);
                Some(groups_number(head + zeros + tail) as u128)
            } else {
                None
            },
            _ => None,
        }
    }
}

/// The address that a text stands for, IPv4 or IPv6.
pub open spec fn parsed_ip(s: Seq<char>) -> Option<IpAddress> {
    match parsed_ipv4(s) {
        Some(v4) => Some(IpAddress::V4(v4)),
        None => match parsed_ipv6(s) {
            Some(v6) => Some(IpAddress::V6(v6)),
            None => None,
        },
    }
}

/// The numbers in a vector of groups.
pub open spec fn numbers(groups: Seq<u16>) -> Seq<nat> {
    Seq::new(groups.len(), |i: int| groups[i] as nat)
}

/// Reads `count` of the pieces as groups.
fn read_groups(parts: &Vec<&[char]>, count: usize) -> (r: Option<Vec<u16>>)
    requires
        count <= parts@.len(),
    ensures
        match r {
            Some(groups) => group_values(text::pieces(parts@).take(count as int)) == Some(
                numbers(groups@),
            ),
            None => group_values(text::pieces(parts@).take(count as int)) is None,
        },
{
    let mut groups: Vec<u16> = Vec::new();
    let mut i: usize = 0;
    let ghost all = text::pieces(parts@);
    assert(numbers(groups@) =~= Seq::empty());
    while i < count
        invariant
            i <= count <= parts@.len(),
            all == text::pieces(parts@),
            group_values(all.take(i as int)) == Some(numbers(groups@)),
        decreases count - i,
    {
        let part = parts[i];
        assert(all.take(i + 1).drop_last() =~= all.take(i as int));
        assert(all.take(i + 1).last() == part@);
        let value: Option<u32> = if part.len() >= 1 && part.len() <= 4 {
            text::read_hex(part)
        } else {
            None
        };
        match value {
            Some(v) => {
                let ghost before = groups@;
                groups.push(v as u16);
                assert(numbers(groups@) =~= numbers(before).push(v as nat));
            },
            None => {
                proof {
                    assert(group_values(all.take(i + 1)) is None);
                    lemma_group_values_prefix(all.take(count as int), i + 1);
                    assert(all.take(count as int).take(i + 1) =~= all.take(i + 1));
                }
                return None;
            },
        }
        i = i + 1;
    }
    Some(groups)
}

proof fn lemma_group_values_prefix(parts: Seq<Seq<char>>, n: int)
    requires
        0 <= n <= parts.len(),
        group_values(parts.take(n)) is None,
    ensures
        group_values(parts) is None,
    decreases parts.len(),
{
    if n < parts.len() {
        assert(parts.drop_last().take(n) =~= parts.take(n));
        lemma_group_values_prefix(parts.drop_last(), n);
    } else {
        assert(parts.take(n) =~= parts);
    }
}

/// Reads groups separated by colons, the last two perhaps as a dotted quad.
fn read_full_groups(s: &[char]) -> (r: Option<Vec<u16>>)
    ensures
        match r {
            Some(groups) => full_groups(s@) == Some(numbers(groups@)),
            None => full_groups(s@) is None,
        },
{
    let parts = text::split_at_each(s, ':');
    let n: usize = parts.len();
    assert(text::pieces(parts@).last() == parts@[n - 1]@);
    match parse_ipv4(parts[n - 1]) {
        Some(quad) => {
            assert(text::pieces(parts@).take(n - 1) =~= text::pieces(parts@).drop_last());
            match read_groups(&parts, n - 1) {
                Some(mut groups) => {
                    let ghost front = groups@;
                    groups.push((quad / 0x1_0000) as u16);
                    groups.push((quad % 0x1_0000) as u16);
                    assert(numbers(groups@) =~= numbers(front).push(quad as nat / 0x1_0000).push(
                        quad as nat % 0x1_0000,
                    ));
                    Some(groups)
                },
                None => None,
            }
        },
        None => {
            assert(text::pieces(parts@).take(n as int) =~= text::pieces(parts@));
            read_groups(&parts, n)
        },
    }
}

/// Finds the first `::`.
fn find_gap(s: &[char]) -> (n: usize)
    ensures
        n == gap_position(s@),
        n <= s@.len(),
        n < s@.len() ==> n + 2 <= s@.len(),
{
    let mut i: usize = 0;
    assert(s@.skip(0) =~= s@);
    while s.len() - i >= 2 && !(s[i] == ':' && s[i + 1] == ':')
        invariant
            i <= s@.len(),
            gap_position(s@) == i + gap_position(s@.skip(i as int)),
        decreases s@.len() - i,
    {
        assert(s@.skip(i as int).skip(1) =~= s@.skip(i + 1));
        i = i + 1;
    }
    if s.len() - i >= 2 {
        i
    } else {
        s.len()
    }
}

/// The number of addresses that `n` groups can tell apart.
pub open spec fn group_weight(n: nat) -> nat
    decreases n,
{
    if n == 0 {
        1
    } else {
        0x1_0000 * group_weight((n - 1) as nat)
    }
}

/// The number that eight groups stand for.
fn groups_to_number(groups: &Vec<u16>) -> (v: u128)
    requires
        groups@.len() == 8,
    ensures
        v == groups_number(numbers(groups@)),
{
    let mut v: u128 = 0;
    let mut i: usize = 0;
    let ghost all = numbers(groups@);
    while i < 8
        invariant
            i <= 8,
            groups@.len() == 8,
            all == numbers(groups@),
            v == groups_number(all.take(i as int)),
            v < group_weight(i as nat),
        decreases 8 - i,
    {
        assert(all.take(i + 1).drop_last() =~= all.take(i as int));
        proof {
            reveal_with_fuel(group_weight, 9);
        }
        v = v * 0x1_0000 + groups[i] as u128;
        i = i + 1;
    }
    assert(all.take(8) =~= all);
    v
}

/// Reads an IPv6 address.
pub fn parse_ipv6(s: &[char]) -> (r: Option<u128>)
    ensures
        r == parsed_ipv6(s@),
{
    let gap: usize = find_gap(s);
    if gap >= s.len() {
        return match read_full_groups(s) {
            Some(groups) => if groups.len() == 8 {
                Some(groups_to_number(&groups))
            } else {
                None
            },
            None => None,
        };
    }
    let front = &s[0..gap];
    let back = &s[gap + 2..s.len()];
    assert(front@ =~= s@.take(gap as int));
    assert(back@ =~= s@.skip(gap + 2));
    assert(numbers(Seq::<u16>::empty()) =~= Seq::<nat>::empty());
    let head: Option<Vec<u16>> = if front.len() == 0 {
        Some(Vec::new())
    } else {
        let parts = text::split_at_each(front, ':');
        assert(text::pieces(parts@).take(parts@.len() as int) =~= text::pieces(parts@));
        read_groups(&parts, parts.len())
    };
    let tail: Option<Vec<u16>> = if back.len() == 0 {
        Some(Vec::new())
    } else {
        read_full_groups(back)
    };
    match (head, tail) {
        (Some(head), Some(tail)) => {
            if head.len() > 7 || tail.len() > 7 - head.len() {
                return None;
            }
            let mut groups: Vec<u16> = head;
            let ghost h = groups@;
            let zeros: usize = 8 - groups.len() - tail.len();
            let mut i: usize = 0;
            while i < zeros
                invariant
                    i <= zeros,
                    groups@ == h + Seq::new(i as nat, |j: int| 0u16),
                decreases zeros - i,
            {
                groups.push(0);
                i = i + 1;
                assert(groups@ =~= h + Seq::new(i as nat, |j: int| 0u16));
            }
            let ghost z = groups@;
            let mut k: usize = 0;
            while k < tail.len()
                invariant
                    k <= tail@.len(),
                    groups@ == z + tail@.take(k as int),
                decreases tail@.len() - k,
            {
                groups.push(tail[k]);
                k = k + 1;
                assert(groups@ =~= z + tail@.take(k as int));
            }
            proof {
                let zero_groups = Seq::new(zeros as nat, |i: int| 0nat);
                assert(numbers(groups@) =~= numbers(h) + zero_groups + numbers(tail@));
            }
            Some(groups_to_number(&groups))
        },
        _ => None,
    }
}

/// Reads an IP address.
pub fn parse_ip(s: &[char]) -> (r: Option<IpAddress>)
    ensures
        r == parsed_ip(s@),
{
    match parse_ipv4(s) {
        Some(v4) => Some(IpAddress::V4(v4)),
        None => match parse_ipv6(s) {
            Some(v6) => Some(IpAddress::V6(v6)),
            None => None,
        },
    }
}

/// An IPv4 address as a dotted quad.
pub open spec fn ipv4_chars(ip: u32) -> Seq<char> {
    text::decimal_chars(ip as nat / 0x100_0000) + "."@ + text::decimal_chars(
        (ip as nat / 0x1_0000) % 256,
    ) + "."@ + text::decimal_chars((ip as nat / 0x100) % 256) + "."@ + text::decimal_chars(
        ip as nat % 256,
    )
}

/// Writes an IPv4 address as a dotted quad.
pub fn format_ipv4(ip: u32) -> (s: String)
    ensures
        s@ == ipv4_chars(ip),
{
    let mut s = text::decimal((ip / 0x100_0000) as u64);
    s.append(".");
    s.append(text::decimal(((ip / 0x1_0000) % 256) as u64).as_str());
    s.append(".");
    s.append(text::decimal(((ip / 0x100) % 256) as u64).as_str());
    s.append(".");
    s.append(text::decimal((ip % 256) as u64).as_str());
    s
}

/// The low `n` groups of a number, the most significant first.
pub open spec fn low_groups(number: nat, n: nat) -> Seq<u16>
    decreases n,
{
    if n == 0 {
        Seq::empty()
    } else {
        low_groups(number / 0x1_0000, (n - 1) as nat).push((number % 0x1_0000) as u16)
    }
}

/// The groups of an IPv6 address.
pub open spec fn ipv6_groups(ip: u128) -> Seq<u16> {
    low_groups(ip as nat, 8)
}

/// Splits a number into groups.
fn split_groups(number: u128, n: usize) -> (groups: Vec<u16>)
    ensures
        groups@ == low_groups(number as nat, n as nat),
        groups@.len() == n,
    decreases n,
{
    if n == 0 {
        Vec::new()
    } else {
        let mut groups = split_groups(number / 0x1_0000, n - 1);
        groups.push((number % 0x1_0000) as u16);
        groups
    }
}

/// Groups in hexadecimal, separated by colons.
pub open spec fn joined_groups(groups: Seq<u16>) -> Seq<char>
    decreases groups.len(),
{
    if groups.len() == 0 {
        Seq::empty()
    } else if groups.len() == 1 {
        text::hex_chars(groups[0] as nat)
    } else {
        joined_groups(groups.drop_last()) + ":"@ + text::hex_chars(groups.last() as nat)
    }
}

/// Writes groups separated by colons.
fn join_groups(groups: &[u16]) -> (s: String)
    ensures
        s@ == joined_groups(groups@),
{
    let mut s = String::new();
    let mut i: usize = 0;
    while i < groups.len()
        invariant
            i <= groups@.len(),
            s@ == joined_groups(groups@.take(i as int)),
        decreases groups@.len() - i,
    {
        if i > 0 {
            s.append(":");
        }
        s.append(text::hex(groups[i] as u64).as_str());
        assert(groups@.take(i + 1).drop_last() =~= groups@.take(i as int));
        assert(s@ =~= joined_groups(groups@.take(i + 1)));
        i = i + 1;
    }
    assert(groups@.take(i as int) =~= groups@);
    s
}

/// The number of zero groups from position `i` on.
pub open spec fn zero_run(groups: Seq<u16>, i: int) -> nat
    decreases groups.len() - i,
{
    if 0 <= i < groups.len() && groups[i] == 0 {
        1 + zero_run(groups, i + 1)
    } else {
        0
    }
}

/// The first of the first `n` positions where the longest run of zeros starts.
pub open spec fn longest_run_start(groups: Seq<u16>, n: nat) -> nat
    decreases n,
{
    if n == 0 {
        0
    } else {
        let before = longest_run_start(groups, (n - 1) as nat);
        if zero_run(groups, n - 1) > zero_run(groups, before as int) {
            (n - 1) as nat
        } else {
            before
        }
    }
}

/// An IPv6 address: an IPv4-mapped one ends in a dotted quad; otherwise the first
/// longest run of at least two zero groups is written as `::`.
pub open spec fn ipv6_chars(ip: u128) -> Seq<char> {
    let groups = ipv6_groups(ip);
    let start = longest_run_start(groups, 8) as int;
    let len = zero_run(groups, start);
    if ip / 0x1_0000_0000 == 0xffff {
        "::ffff:"@ + ipv4_chars((ip % 0x1_0000_0000) as u32)
    } else if len > 1 {
        joined_groups(groups.take(start)) + "::"@ + joined_groups(groups.skip(start + len))
    } else {
        joined_groups(groups)
    }
}

/// Counts the zero groups from position `i` on.
fn count_zeros(groups: &Vec<u16>, i: usize) -> (n: usize)
    requires
        i <= groups@.len(),
    ensures
        n == zero_run(groups@, i as int),
        i + n <= groups@.len(),
    decreases groups@.len() - i,
{
    if i < groups.len() && groups[i] == 0 {
        1 + count_zeros(groups, i + 1)
    } else {
        0
    }
}

/// Writes an IPv6 address.
pub fn format_ipv6(ip: u128) -> (s: String)
    ensures
        s@ == ipv6_chars(ip),
{
    if ip / 0x1_0000_0000 == 0xffff {
        let mut s = "::ffff:".to_owned();
        s.append(format_ipv4((ip % 0x1_0000_0000) as u32).as_str());
        return s;
    }
    let groups = split_groups(ip, 8);
    let mut start: usize = 0;
    let mut len: usize = count_zeros(&groups, 0);
    let mut i: usize = 0;
    while i < 8
        invariant
            i <= 8,
            groups@.len() == 8,
            start <= 8,
            start == longest_run_start(groups@, i as nat),
            len == zero_run(groups@, start as int),
            start + len <= 8,
        decreases 8 - i,
    {
        let n: usize = count_zeros(&groups, i);
        if n > len {
            start = i;
            len = n;
        }
        i = i + 1;
    }
    if len > 1 {
        let head = &groups.as_slice()[0..start];
        let tail = &groups.as_slice()[start + len..8];
        assert(head@ =~= groups@.take(start as int));
        assert(tail@ =~= groups@.skip(start + len));
        let mut s = join_groups(head);
        s.append("::");
        s.append(join_groups(tail).as_str());
        s
    } else {
        join_groups(groups.as_slice())
    }
}

impl IpAddress {
    /// The text form of the address.
    pub open spec fn chars(self) -> Seq<char> {
        match self {
            IpAddress::V4(ip) => ipv4_chars(ip),
            IpAddress::V6(ip) => ipv6_chars(ip),
        }
    }

    /// Writes the address.
    pub fn format(&self) -> (s: String)
        ensures
            s@ == self.chars(),
    {
        match self {
            IpAddress::V4(ip) => format_ipv4(*ip),
            IpAddress::V6(ip) => format_ipv6(*ip),
        }
    }
}

proof fn lemma_octet_text(n: nat)
    requires
        n <= 255,
    ensures
        octet_value(text::decimal_chars(n)) == Some(n),
        forall|i: int|
            0 <= i < text::decimal_chars(n).len() ==> '0' <= #[trigger] text::decimal_chars(n)[i]
                <= '9',
{
    text::lemma_decimal_round_trip(n);
    reveal_with_fuel(text::decimal_chars, 4);
}

spec fn digits_only(s: Seq<char>) -> bool {
    forall|i: int| 0 <= i < s.len() ==> '0' <= #[trigger] s[i] <= '9'
}

spec fn dotted(a: Seq<char>, b: Seq<char>, c: Seq<char>, d: Seq<char>) -> Seq<char> {
    a + "."@ + b + "."@ + c + "."@ + d
}

proof fn lemma_dotted(a: Seq<char>, b: Seq<char>, c: Seq<char>, d: Seq<char>)
    requires
        digits_only(a),
        digits_only(b),
        digits_only(c),
        digits_only(d),
    ensures
        text::split(dotted(a, b, c, d), '.') == seq![a, b, c, d],
        forall|i: int|
            0 <= i < dotted(a, b, c, d).len() ==> ('0' <= #[trigger] dotted(a, b, c, d)[i] <= '9'
                || dotted(a, b, c, d)[i] == '.'),
{
    reveal_strlit(".");
    let dot = seq!['.'];
    assert("."@ =~= dot);
    let cd = c + dot + d;
    let bcd = b + dot + cd;
    assert(dotted(a, b, c, d) =~= a + dot + bcd);
    text::lemma_split_piece(a, '.', bcd);
    text::lemma_split_piece(b, '.', cd);
    text::lemma_split_piece(c, '.', d);
    text::lemma_split_piece(d, '.', Seq::empty());
    assert(text::split(dotted(a, b, c, d), '.') =~= seq![a, b, c, d]);
}

/// A dotted quad reads back as the address that was written, and holds digits and
/// dots only.
pub proof fn law_ipv4_text_round_trip(ip: u32)
    ensures
        parsed_ipv4(ipv4_chars(ip)) == Some(ip),
        forall|i: int|
            0 <= i < ipv4_chars(ip).len() ==> ('0' <= #[trigger] ipv4_chars(ip)[i] <= '9'
                || ipv4_chars(ip)[i] == '.'),
{
    let w = ip as nat / 0x100_0000;
    let x = (ip as nat / 0x1_0000) % 256;
    let y = (ip as nat / 0x100) % 256;
    let z = ip as nat % 256;
    lemma_octet_text(w);
    lemma_octet_text(x);
    lemma_octet_text(y);
    lemma_octet_text(z);
    lemma_dotted(
        text::decimal_chars(w),
        text::decimal_chars(x),
        text::decimal_chars(y),
        text::decimal_chars(z),
    );
    assert(ipv4_chars(ip) == dotted(
        text::decimal_chars(w),
        text::decimal_chars(x),
        text::decimal_chars(y),
        text::decimal_chars(z),
    ));
    assert(ip as nat == w * 0x100_0000 + x * 0x1_0000 + y * 0x100 + z);
}

#[verifier::rlimit(40)]
proof fn lemma_octet_is_canonical(s: Seq<char>)
    requires
        octet_value(s) is Some,
    ensures
        s == text::decimal_chars(octet_value(s)->Some_0),
{
    let v = octet_value(s)->Some_0;
    reveal_with_fuel(text::decimal_value, 4);
    reveal_with_fuel(text::decimal_chars, 4);
    if s.len() == 1 {
        assert(s =~= text::decimal_chars(v));
    } else if s.len() == 2 {
        let front = s.drop_last();
        assert(front.last() == s[0]);
        assert(s =~= text::decimal_chars(v));
    } else {
        let front = s.drop_last();
        assert(front.last() == s[1]);
        assert(front.drop_last().last() == s[0]);
        assert(s =~= text::decimal_chars(v));
    }
}

/// Four octets of an address as a number.
pub open spec fn quad_number(a: u8, b: u8, c: u8, d: u8) -> u32 {
    (a * 0x100_0000 + b * 0x1_0000 + c * 0x100 + d) as u32
}

/// An IPv4 address is written as its four octets in decimal, the most significant first,
/// with dots between them.
pub proof fn law_ipv4_text(a: u8, b: u8, c: u8, d: u8)
    ensures
        ipv4_chars(quad_number(a, b, c, d)) == text::decimal_chars(a as nat) + "."@
            + text::decimal_chars(b as nat) + "."@ + text::decimal_chars(c as nat) + "."@
            + text::decimal_chars(d as nat),
{
    lemma_octets(a as nat, b as nat, c as nat, d as nat, quad_number(a, b, c, d) as nat);
}

/// A number of four octets falls apart into them.
pub proof fn lemma_octets(a: nat, b: nat, c: nat, d: nat, n: nat)
    requires
        a < 256,
        b < 256,
        c < 256,
        d < 256,
        n == a * 0x100_0000 + b * 0x1_0000 + c * 0x100 + d,
    ensures
        n / 0x100_0000 == a,
        (n / 0x1_0000) % 256 == b,
        (n / 0x100) % 256 == c,
        n % 256 == d,
{
    assert(n / 0x100 == a * 0x1_0000 + b * 0x100 + c);
    assert(n / 0x1_0000 == a * 0x100 + b);
}

/// A text is an IPv4 address only if it is the address as it is written: without leading
/// zeros, spaces or anything else.
pub proof fn law_ipv4_text_is_the_only_one(s: Seq<char>)
    requires
        parsed_ipv4(s) is Some,
    ensures
        s == ipv4_chars(parsed_ipv4(s)->Some_0),
{
    let parts = text::split(s, '.');
    text::law_joining_undoes_splitting(s, '.');
    lemma_octet_is_canonical(parts[0]);
    lemma_octet_is_canonical(parts[1]);
    lemma_octet_is_canonical(parts[2]);
    lemma_octet_is_canonical(parts[3]);
    let a = octet_value(parts[0])->Some_0 as u8;
    let b = octet_value(parts[1])->Some_0 as u8;
    let c = octet_value(parts[2])->Some_0 as u8;
    let d = octet_value(parts[3])->Some_0 as u8;
    law_ipv4_text(a, b, c, d);
    assert(parsed_ipv4(s) == Some(quad_number(a, b, c, d)));
    reveal_with_fuel(text::joined, 5);
    reveal_strlit(".");
    let three = parts.drop_last();
    let two = three.drop_last();
    assert(two.drop_last()[0] == parts[0] && two.last() == parts[1] && three.last() == parts[2]
        && parts.last() == parts[3]);
    assert(text::joined(parts, '.') =~= parts[0] + "."@ + parts[1] + "."@ + parts[2] + "."@
        + parts[3]);
}

/// A text is an address exactly if it is one of either kind; one that is an IPv4 address
/// is taken for that.
pub proof fn law_either_kind_of_address(s: Seq<char>)
    ensures
        parsed_ipv4(s) matches Some(ip) ==> parsed_ip(s) == Some(IpAddress::V4(ip)),
        parsed_ipv4(s) is None ==> (parsed_ipv6(s) matches Some(ip) ==> parsed_ip(s) == Some(
            IpAddress::V6(ip),
        )),
        parsed_ipv4(s) is None && parsed_ipv6(s) is None ==> parsed_ip(s) is None,
{
}

/// A group of an IPv6 address as it may be written: one to four hexadecimal digits.
pub open spec fn is_group(s: Seq<char>) -> bool {
    1 <= s.len() <= 4 && forall|i: int| 0 <= i < s.len() ==> text::hex_value(#[trigger] s[i]) is Some
}

/// Groups of an IPv6 address as they may be written.
pub open spec fn are_groups(parts: Seq<Seq<char>>) -> bool {
    forall|i: int| 0 <= i < parts.len() ==> is_group(#[trigger] parts[i])
}

proof fn lemma_group(s: Seq<char>)
    requires
        is_group(s),
    ensures
        text::hex_number(s) is Some,
        text::hex_number(s)->Some_0 < 0x1_0000,
        group_value(s) == text::hex_number(s),
        !s.contains(':'),
        !s.contains('.'),
{
    reveal_with_fuel(text::hex_number, 5);
    let a = s.drop_last();
    let b = a.drop_last();
    let c = b.drop_last();
    assert(text::hex_value(s[s.len() - 1]) is Some);
    if s.len() >= 2 {
        assert(a.last() == s[s.len() - 2]);
        assert(text::hex_value(s[s.len() - 2]) is Some);
    }
    if s.len() >= 3 {
        assert(b.last() == s[s.len() - 3]);
        assert(text::hex_value(s[s.len() - 3]) is Some);
    }
    if s.len() >= 4 {
        assert(c.last() == s[0]);
        assert(text::hex_value(s[0]) is Some);
    }
    assert forall|i: int| 0 <= i < s.len() implies s[i] != ':' && s[i] != '.' by {
        assert(text::hex_value(s[i]) is Some);
    }
}

/// The numbers that groups stand for.
pub open spec fn group_numbers(parts: Seq<Seq<char>>) -> Seq<nat> {
    Seq::new(parts.len(), |i: int| text::hex_number(parts[i])->Some_0)
}

proof fn lemma_group_values(parts: Seq<Seq<char>>)
    requires
        are_groups(parts),
    ensures
        group_values(parts) == Some(group_numbers(parts)),
    decreases parts.len(),
{
    if parts.len() == 0 {
        assert(group_numbers(parts) =~= Seq::<nat>::empty());
    } else {
        let front = parts.drop_last();
        assert forall|i: int| 0 <= i < front.len() implies is_group(#[trigger] front[i]) by {
            assert(front[i] == parts[i]);
        }
        lemma_group_values(front);
        assert(is_group(parts[parts.len() - 1]));
        lemma_group(parts.last());
        assert(group_numbers(parts) =~= group_numbers(front).push(
            text::hex_number(parts.last())->Some_0,
        ));
    }
}

proof fn lemma_joined_shape(parts: Seq<Seq<char>>)
    requires
        are_groups(parts),
        parts.len() > 0,
    ensures
        text::joined(parts, ':').len() > 0,
        text::joined(parts, ':')[0] != ':',
        text::joined(parts, ':').last() != ':',
        !text::joined(parts, ':').contains('.'),
        forall|i: int|
            0 <= i < text::joined(parts, ':').len() - 1 ==> !(#[trigger] text::joined(parts, ':')[i]
                == ':' && text::joined(parts, ':')[i + 1] == ':'),
    decreases parts.len(),
{
    let s = text::joined(parts, ':');
    let last = parts.last();
    assert(is_group(parts[parts.len() - 1]));
    lemma_group(last);
    assert forall|i: int| 0 <= i < last.len() implies last[i] != ':' && last[i] != '.' by {
        assert(last.contains(last[i]));
    }
    if parts.len() > 1 {
        let front = parts.drop_last();
        let before = text::joined(front, ':');
        assert forall|i: int| 0 <= i < front.len() implies is_group(#[trigger] front[i]) by {
            assert(front[i] == parts[i]);
        }
        lemma_joined_shape(front);
        assert(s[0] == before[0]);
        assert(s.last() == last.last());
        assert forall|i: int| 0 <= i < s.len() - 1 implies !(#[trigger] s[i] == ':' && s[i + 1]
            == ':') by {
            if i < before.len() - 1 {
                assert(s[i] == before[i] && s[i + 1] == before[i + 1]);
            } else if i == before.len() - 1 {
                assert(s[i] == before.last());
            } else if i == before.len() {
                assert(s[i + 1] == last[0]);
            } else {
                assert(s[i] == last[i - before.len() - 1]);
            }
        }
        if s.contains('.') {
            let i = choose|i: int| 0 <= i < s.len() && s[i] == '.';
            if i < before.len() {
                assert(before.contains(before[i]));
            } else if i > before.len() {
                assert(s[i] == last[i - before.len() - 1]);
            }
        }
    }
}

proof fn lemma_gap_position(s: Seq<char>, n: nat)
    requires
        n <= s.len(),
        forall|i: int| 0 <= i < n && i + 1 < s.len() ==> !(#[trigger] s[i] == ':' && s[i + 1] == ':'),
        n < s.len() ==> n + 1 < s.len() && s[n as int] == ':' && s[n as int + 1] == ':',
    ensures
        gap_position(s) == n,
    decreases s.len(),
{
    if n > 0 {
        if s.len() >= 2 {
            assert(!(s[0] == ':' && s[1] == ':'));
            let rest = s.skip(1);
            assert forall|i: int| 0 <= i < n - 1 && i + 1 < rest.len() implies !(#[trigger] rest[i]
                == ':' && rest[i + 1] == ':') by {
                assert(rest[i] == s[i + 1] && rest[i + 1] == s[i + 2]);
                assert(!(s[i + 1] == ':' && s[(i + 1) + 1] == ':'));
            }
            if n < s.len() {
                assert(rest[n - 1] == s[n as int] && rest[n as int] == s[n as int + 1]);
            }
            lemma_gap_position(rest, (n - 1) as nat);
        }
    }
}

proof fn lemma_full_groups(parts: Seq<Seq<char>>)
    requires
        are_groups(parts),
        parts.len() > 0,
    ensures
        full_groups(text::joined(parts, ':')) == Some(group_numbers(parts)),
{
    assert forall|i: int| 0 <= i < parts.len() implies !(#[trigger] parts[i]).contains(':') by {
        lemma_group(parts[i]);
    }
    text::law_split_undoes_joining(parts, ':');
    lemma_group(parts[parts.len() - 1]);
    text::law_split_without_separator(parts.last(), '.');
    assert(parsed_ipv4(parts.last()) is None);
    lemma_group_values(parts);
}

/// Eight groups with colons between them are the address with these groups, the most
/// significant first.
pub proof fn law_ipv6_of_eight_groups(parts: Seq<Seq<char>>)
    requires
        are_groups(parts),
        parts.len() == 8,
    ensures
        parsed_ipv6(text::joined(parts, ':')) == Some(groups_number(group_numbers(parts)) as u128),
{
    let s = text::joined(parts, ':');
    lemma_joined_shape(parts);
    lemma_gap_position(s, s.len());
    lemma_full_groups(parts);
}

/// Two colons between groups stand for as many groups of zeros as are missing, and for at
/// least one.
#[verifier::rlimit(40)]
pub proof fn law_ipv6_with_a_gap(head: Seq<Seq<char>>, tail: Seq<Seq<char>>)
    requires
        are_groups(head),
        are_groups(tail),
        head.len() + tail.len() <= 7,
    ensures
        ({
            let zeros = Seq::new((8 - head.len() - tail.len()) as nat, |i: int| 0nat);
            parsed_ipv6(text::joined(head, ':') + "::"@ + text::joined(tail, ':')) == Some(
                groups_number(group_numbers(head) + zeros + group_numbers(tail)) as u128,
            )
        }),
{
    reveal_strlit("::");
    let front = text::joined(head, ':');
    let back = text::joined(tail, ':');
    let s = front + "::"@ + back;
    let n = front.len();
    if head.len() > 0 {
        lemma_joined_shape(head);
    }
    assert forall|i: int| 0 <= i < n && i + 1 < s.len() implies !(#[trigger] s[i] == ':' && s[i + 1]
        == ':') by {
        assert(s[i] == front[i]);
        if i < n - 1 {
            assert(s[i + 1] == front[i + 1]);
        } else {
            assert(front[i] == front.last());
        }
    }
    assert(s[n as int] == ':' && s[n as int + 1] == ':');
    lemma_gap_position(s, n);
    assert(s.take(n as int) =~= front);
    assert(s.skip(n as int + 2) =~= back);
    assert(head_groups(front) == Some(group_numbers(head))) by {
        if head.len() == 0 {
            assert(group_numbers(head) =~= Seq::<nat>::empty());
        } else {
            assert forall|i: int| 0 <= i < head.len() implies !(#[trigger] head[i]).contains(':') by {
                lemma_group(head[i]);
            }
            text::law_split_undoes_joining(head, ':');
            lemma_group_values(head);
        }
    }
    assert(tail_groups(back) == Some(group_numbers(tail))) by {
        if tail.len() == 0 {
            assert(group_numbers(tail) =~= Seq::<nat>::empty());
        } else {
            lemma_joined_shape(tail);
            lemma_full_groups(tail);
        }
    }
}

proof fn lemma_groups_bound(groups: Seq<nat>)
    requires
        forall|i: int| 0 <= i < groups.len() ==> #[trigger] groups[i] < 0x1_0000,
    ensures
        groups_number(groups) < group_weight(groups.len()),
    decreases groups.len(),
{
    if groups.len() > 0 {
        let front = groups.drop_last();
        assert forall|i: int| 0 <= i < front.len() implies #[trigger] front[i] < 0x1_0000 by {
            assert(front[i] == groups[i]);
        }
        lemma_groups_bound(front);
        assert(groups.last() == groups[groups.len() - 1]);
    }
}

/// Each group is worth 65536 times the one behind it: the groups of a number are its
/// digits.
pub proof fn law_groups_are_digits(groups: Seq<nat>, i: int)
    requires
        forall|k: int| 0 <= k < groups.len() ==> #[trigger] groups[k] < 0x1_0000,
        0 <= i < groups.len(),
    ensures
        (groups_number(groups) / group_weight((groups.len() - 1 - i) as nat)) % 0x1_0000 == groups[i],
    decreases groups.len(),
{
    let front = groups.drop_last();
    let n = groups_number(groups);
    let last = groups.last();
    assert(last == groups[groups.len() - 1]);
    assert(last < 0x1_0000);
    assert(n == groups_number(front) * 0x1_0000 + last);
    assert(n / 0x1_0000 == groups_number(front) && n % 0x1_0000 == last);
    if i == groups.len() - 1 {
        assert(group_weight(0) == 1);
        assert(n / 1 == n);
    } else {
        assert forall|k: int| 0 <= k < front.len() implies #[trigger] front[k] < 0x1_0000 by {
            assert(front[k] == groups[k]);
        }
        law_groups_are_digits(front, i);
        let w = group_weight((groups.len() - 2 - i) as nat);
        lemma_weight_positive((groups.len() - 2 - i) as nat);
        assert(group_weight((groups.len() - 1 - i) as nat) == 0x1_0000 * w);
        vstd::arithmetic::div_mod::lemma_div_denominator(n as int, 0x1_0000, w as int);
        assert(front[i] == groups[i]);
    }
}

proof fn lemma_weight_positive(n: nat)
    ensures
        group_weight(n) > 0,
    decreases n,
{
    if n > 0 {
        lemma_weight_positive((n - 1) as nat);
    }
}

proof fn lemma_low_groups(number: nat, n: nat)
    ensures
        low_groups(number, n).len() == n,
        groups_number(numbers(low_groups(number, n))) == number % group_weight(n),
    decreases n,
{
    let groups = low_groups(number, n);
    if n == 0 {
        assert(numbers(groups) =~= Seq::<nat>::empty());
        assert(number % 1 == 0);
    } else {
        let front = low_groups(number / 0x1_0000, (n - 1) as nat);
        let w = group_weight((n - 1) as nat);
        lemma_low_groups(number / 0x1_0000, (n - 1) as nat);
        lemma_weight_positive((n - 1) as nat);
        assert(groups.drop_last() =~= front);
        assert(numbers(groups).drop_last() =~= numbers(front));
        assert(numbers(groups).last() == number % 0x1_0000);
        vstd::arithmetic::div_mod::lemma_mod_breakdown(number as int, 0x1_0000, w as int);
    }
}

/// The text of each group.
pub open spec fn group_texts(groups: Seq<u16>) -> Seq<Seq<char>> {
    Seq::new(groups.len(), |i: int| text::hex_chars(groups[i] as nat))
}

proof fn lemma_group_texts(groups: Seq<u16>)
    ensures
        are_groups(group_texts(groups)),
        group_numbers(group_texts(groups)) == numbers(groups),
{
    let texts = group_texts(groups);
    assert forall|i: int| 0 <= i < texts.len() implies is_group(#[trigger] texts[i]) by {
        text::law_hex_round_trip(groups[i] as nat);
        assert forall|k: int| 0 <= k < texts[i].len() implies text::hex_value(
            #[trigger] texts[i][k],
        ) is Some by {
            let c = text::hex_chars(groups[i] as nat)[k];
            assert('0' <= c <= '9' || 'a' <= c <= 'f');
        }
    }
    assert forall|i: int| 0 <= i < texts.len() implies group_numbers(texts)[i] == numbers(
        groups,
    )[i] by {
        text::law_hex_round_trip(groups[i] as nat);
    }
    assert(group_numbers(texts) =~= numbers(groups));
}

proof fn lemma_joined_groups(groups: Seq<u16>)
    ensures
        joined_groups(groups) == text::joined(group_texts(groups), ':'),
    decreases groups.len(),
{
    let texts = group_texts(groups);
    reveal_strlit(":");
    if groups.len() > 1 {
        lemma_joined_groups(groups.drop_last());
        assert(texts.drop_last() =~= group_texts(groups.drop_last()));
        assert(texts.last() == text::hex_chars(groups.last() as nat));
        assert(joined_groups(groups) =~= text::joined(texts, ':'));
    } else if groups.len() == 0 {
        assert(joined_groups(groups) =~= text::joined(texts, ':'));
    }
}

proof fn lemma_zero_run(groups: Seq<u16>, i: int)
    requires
        0 <= i <= groups.len(),
    ensures
        i + zero_run(groups, i) <= groups.len(),
        forall|k: int| i <= k < i + zero_run(groups, i) ==> #[trigger] groups[k] == 0,
        i + zero_run(groups, i) < groups.len() ==> groups[i + zero_run(groups, i)] != 0,
    decreases groups.len() - i,
{
    if i < groups.len() && groups[i] == 0 {
        lemma_zero_run(groups, i + 1);
    }
}

proof fn lemma_longest_run(groups: Seq<u16>, n: nat)
    requires
        0 < n <= groups.len(),
    ensures
        longest_run_start(groups, n) < n,
        forall|i: int|
            0 <= i < n ==> #[trigger] zero_run(groups, i) <= zero_run(
                groups,
                longest_run_start(groups, n) as int,
            ),
        forall|i: int|
            0 <= i < longest_run_start(groups, n) ==> #[trigger] zero_run(groups, i) < zero_run(
                groups,
                longest_run_start(groups, n) as int,
            ),
    decreases n,
{
    if n > 1 {
        lemma_longest_run(groups, (n - 1) as nat);
    } else {
        assert(longest_run_start(groups, 0) == 0);
        assert(longest_run_start(groups, 1) == 0);
    }
}

/// Whether `len` groups from position `i` on are zeros.
pub open spec fn zeros_at(groups: Seq<u16>, i: int, len: int) -> bool {
    &&& 0 <= i
    &&& 0 <= len
    &&& i + len <= groups.len()
    &&& forall|k: int| i <= k < i + len ==> #[trigger] groups[k] == 0
}

/// How an IPv6 address is written: one that maps an IPv4 address with that address at the
/// end; else the groups in hexadecimal, with two colons in place of the longest stretch of
/// zeros, the first of them if there are several, and of none shorter than two.
#[verifier::rlimit(40)]
pub proof fn law_ipv6_text(ip: u128)
    ensures
        ({
            let groups = ipv6_groups(ip);
            let texts = group_texts(groups);
            let mapped = ip / 0x1_0000_0000 == 0xffff;
            &&& groups.len() == 8
            &&& mapped ==> ipv6_chars(ip) == "::ffff:"@ + ipv4_chars((ip % 0x1_0000_0000) as u32)
            &&& !mapped && (forall|i: int| !#[trigger] zeros_at(groups, i, 2)) ==> ipv6_chars(ip)
                == text::joined(texts, ':')
            &&& !mapped && (exists|i: int| #[trigger] zeros_at(groups, i, 2)) ==> exists|
                start: int,
                len: int,
            |
                #![trigger zeros_at(groups, start, len)]
                len >= 2 && zeros_at(groups, start, len) && (forall|i: int, n: int|
                    #[trigger] zeros_at(groups, i, n) ==> n < len || (n == len && i >= start))
                    && ipv6_chars(ip) == text::joined(texts.take(start), ':') + "::"@ + text::joined(
                    texts.skip(start + len),
                    ':',
                )
        }),
{
    let groups = ipv6_groups(ip);
    let texts = group_texts(groups);
    let start = longest_run_start(groups, 8) as int;
    let len = zero_run(groups, start) as int;
    lemma_low_groups(ip as nat, 8);
    lemma_longest_run(groups, 8);
    lemma_zero_run(groups, start);
    lemma_joined_groups(groups);
    lemma_joined_groups(groups.take(start));
    lemma_joined_groups(groups.skip(start + len));
    assert(group_texts(groups.take(start)) =~= texts.take(start));
    assert(group_texts(groups.skip(start + len)) =~= texts.skip(start + len));
    assert(zeros_at(groups, start, len));
    assert forall|i: int, n: int| #[trigger] zeros_at(groups, i, n) implies n < len || (n == len && i
        >= start) || n == 0 by {
        if n > 0 {
            lemma_zero_run(groups, i);
            if n > zero_run(groups, i) {
                assert(groups[i + zero_run(groups, i)] == 0);
            }
            assert(n <= zero_run(groups, i));
            assert(zero_run(groups, i) <= zero_run(groups, start));
        }
    }
    if exists|i: int| #[trigger] zeros_at(groups, i, 2) {
        let i = choose|i: int| #[trigger] zeros_at(groups, i, 2);
        assert(zeros_at(groups, i, 2));
        assert(len >= 2);
    } else if len >= 2 {
        assert(zeros_at(groups, start, 2));
    }
}

/// An address that is written and read again is the same address.
#[verifier::rlimit(40)]
pub proof fn law_ipv6_text_round_trip(ip: u128)
    ensures
        parsed_ipv6(ipv6_chars(ip)) == Some(ip),
        ipv6_chars(ip).contains(':'),
{
    let s = ipv6_chars(ip);
    let groups = ipv6_groups(ip);
    let texts = group_texts(groups);
    let start = longest_run_start(groups, 8) as int;
    let len = zero_run(groups, start) as int;
    lemma_low_groups(ip as nat, 8);
    assert(group_weight(8) == 0x1_0000_0000_0000_0000_0000_0000_0000_0000) by {
        reveal_with_fuel(group_weight, 9);
    }
    assert(groups_number(numbers(groups)) == ip);
    lemma_longest_run(groups, 8);
    lemma_zero_run(groups, start);
    lemma_group_texts(groups);
    lemma_joined_groups(groups);
    if ip / 0x1_0000_0000 == 0xffff {
        lemma_mapped_text(ip);
    } else if len > 1 {
        let head = groups.take(start);
        let tail = groups.skip(start + len);
        lemma_group_texts(head);
        lemma_group_texts(tail);
        lemma_joined_groups(head);
        lemma_joined_groups(tail);
        law_ipv6_with_a_gap(group_texts(head), group_texts(tail));
        let zeros = Seq::new((8 - head.len() - tail.len()) as nat, |i: int| 0nat);
        assert(numbers(groups) =~= numbers(head) + zeros + numbers(tail));
        reveal_strlit("::");
        assert(s[joined_groups(head).len() as int] == ':');
    } else {
        law_ipv6_of_eight_groups(texts);
        let before = text::joined(texts.drop_last(), ':');
        assert(s[before.len() as int] == ':');
    }
}

#[verifier::rlimit(40)]
proof fn lemma_mapped_text(ip: u128)
    requires
        ip / 0x1_0000_0000 == 0xffff,
    ensures
        parsed_ipv6(ipv6_chars(ip)) == Some(ip),
        ipv6_chars(ip).contains(':'),
{
    let quad = (ip % 0x1_0000_0000) as u32;
    let q = ipv4_chars(quad);
    let s = "::ffff:"@ + q;
    reveal_strlit("::ffff:");
    law_ipv4_text_round_trip(quad);
    assert(s[0] == ':' && s[1] == ':');
    lemma_gap_position(s, 0);
    let f = seq!['f', 'f', 'f', 'f'];
    let tail = s.skip(2);
    assert(tail =~= f.push(':') + q);
    assert(s.take(0) =~= Seq::<char>::empty());
    assert(!q.contains(':')) by {
        if q.contains(':') {
            let i = choose|i: int| 0 <= i < q.len() && q[i] == ':';
            assert('0' <= q[i] <= '9' || q[i] == '.');
        }
    }
    assert(is_group(f));
    lemma_group(f);
    text::law_split_at_separator(f, ':', q);
    text::law_split_without_separator(f, ':');
    text::law_split_without_separator(q, ':');
    let parts = text::split(tail, ':');
    assert(parts =~= seq![f, q]);
    assert(parts.last() == q);
    assert(parts.drop_last() =~= seq![f]);
    assert(are_groups(seq![f]));
    lemma_group_values(seq![f]);
    assert(text::hex_number(f) == Some(0xffffnat)) by {
        reveal_with_fuel(text::hex_number, 5);
        let a = f.drop_last();
        let b = a.drop_last();
        let c = b.drop_last();
        assert(a.last() == 'f' && b.last() == 'f' && c.last() == 'f');
    }
    let high = quad as nat / 0x1_0000;
    let low = quad as nat % 0x1_0000;
    assert(group_numbers(seq![f]) =~= seq![0xffffnat]);
    let groups = seq![0xffffnat].push(high).push(low);
    assert(full_groups(tail) == Some(groups));
    let zeros = Seq::new(5, |i: int| 0nat);
    let all = Seq::<nat>::empty() + zeros + groups;
    assert(groups_number(all) == ip) by {
        reveal_with_fuel(groups_number, 9);
        assert(all.last() == low);
        let a = all.drop_last();
        assert(a.last() == high);
        let b = a.drop_last();
        assert(b.last() == 0xffff);
        let c = b.drop_last();
        assert(c =~= zeros);
        lemma_zero_groups(c);
        assert(groups_number(b) == 0xffff);
        assert(groups_number(a) == 0xffff * 0x1_0000 + high);
        assert(groups_number(all) == (0xffff * 0x1_0000 + high) * 0x1_0000 + low);
    }
}

proof fn lemma_zero_groups(groups: Seq<nat>)
    requires
        forall|i: int| 0 <= i < groups.len() ==> #[trigger] groups[i] == 0,
    ensures
        groups_number(groups) == 0,
    decreases groups.len(),
{
    if groups.len() > 0 {
        let front = groups.drop_last();
        assert forall|i: int| 0 <= i < front.len() implies #[trigger] front[i] == 0 by {
            assert(front[i] == groups[i]);
        }
        lemma_zero_groups(front);
        assert(groups.last() == groups[groups.len() - 1]);
    }
}

/// Whatever address is written, the same one is read.
pub proof fn law_address_text_round_trip(ip: IpAddress)
    ensures
        parsed_ip(ip.chars()) == Some(ip),
{
    match ip {
        IpAddress::V4(v4) => law_ipv4_text_round_trip(v4),
        IpAddress::V6(v6) => {
            law_ipv6_text_round_trip(v6);
            let s = ipv6_chars(v6);
            if parsed_ipv4(s) is Some {
                let v4 = parsed_ipv4(s)->Some_0;
                law_ipv4_text_is_the_only_one(s);
                law_ipv4_text_round_trip(v4);
                let i = choose|i: int| 0 <= i < s.len() && s[i] == ':';
                assert('0' <= ipv4_chars(v4)[i] <= '9' || ipv4_chars(v4)[i] == '.');
            }
        },
    }
}

/// A dotted quad may stand for the last two groups.
#[verifier::rlimit(40)]
pub proof fn law_ipv6_ending_in_a_quad(parts: Seq<Seq<char>>, quad: u32)
    requires
        are_groups(parts),
        parts.len() == 6,
    ensures
        parsed_ipv6(text::joined(parts, ':').push(':') + ipv4_chars(quad)) == Some(
            groups_number(
                group_numbers(parts).push(quad as nat / 0x1_0000).push(quad as nat % 0x1_0000),
            ) as u128,
        ),
{
    let front = text::joined(parts, ':');
    let q = ipv4_chars(quad);
    let s = front.push(':') + q;
    law_ipv4_text_round_trip(quad);
    lemma_joined_shape(parts);
    assert forall|i: int| 0 <= i < q.len() implies q[i] != ':' by {
        assert('0' <= q[i] <= '9' || q[i] == '.');
    }
    assert forall|i: int| 0 <= i < s.len() && i + 1 < s.len() implies !(#[trigger] s[i] == ':' && s[i
        + 1] == ':') by {
        if i < front.len() - 1 {
            assert(s[i] == front[i] && s[i + 1] == front[i + 1]);
        } else if i == front.len() - 1 {
            assert(s[i] == front.last());
        } else if i == front.len() {
            assert(s[i + 1] == q[0]);
        } else {
            assert(s[i] == q[i - front.len() - 1]);
        }
    }
    lemma_gap_position(s, s.len());
    assert(!q.contains(':'));
    assert forall|i: int| 0 <= i < parts.len() implies !(#[trigger] parts[i]).contains(':') by {
        lemma_group(parts[i]);
    }
    text::law_split_undoes_joining(parts, ':');
    text::law_split_at_separator(front, ':', q);
    text::law_split_without_separator(q, ':');
    let all = text::split(s, ':');
    assert(all =~= parts.push(q));
    assert(all.last() == q && all.drop_last() =~= parts);
    lemma_group_values(parts);
}

/// Without two colons together, an IPv6 address has as many groups as it has, and they
/// have to be eight.
pub proof fn law_ipv6_has_eight_groups(parts: Seq<Seq<char>>)
    requires
        are_groups(parts),
        parts.len() > 0,
        parts.len() != 8,
    ensures
        parsed_ipv6(text::joined(parts, ':')) is None,
{
    let s = text::joined(parts, ':');
    lemma_joined_shape(parts);
    lemma_gap_position(s, s.len());
    lemma_full_groups(parts);
}

} // verus!
