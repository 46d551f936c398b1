//! Byte sequences: big-endian integers, appending and fixed-size pieces.
use vstd::prelude::*;

verus! {

/// The low sixteen bits of `n`, most significant byte first.
pub open spec fn be16(n: nat) -> Seq<u8> {
    seq![((n / 256) % 256) as u8, (n % 256) as u8]
}

/// The number that two big-endian bytes stand for.
pub open spec fn be16_value(high: u8, low: u8) -> nat {
    (high as nat) * 256 + low as nat
}

/// The low thirty-two bits of `n`, most significant byte first.
pub open spec fn be32(n: nat) -> Seq<u8> {
    be16(n / 0x1_0000) + be16(n % 0x1_0000)
}

/// The number that the first four bytes of `s` stand for.
pub open spec fn be32_value(s: Seq<u8>) -> nat {
    be16_value(s[0], s[1]) * 0x1_0000 + be16_value(s[2], s[3])
}

/// The eight bytes of `n`, most significant byte first.
#[verifier::opaque]
pub open spec fn be64(n: u64) -> Seq<u8> {
    be32(n as nat / 0x1_0000_0000) + be32(n as nat % 0x1_0000_0000)
}

/// The number that the first eight bytes of `s` stand for.
pub open spec fn be64_value(s: Seq<u8>) -> nat {
    be32_value(s) * 0x1_0000_0000 + be32_value(s.skip(4))
}

proof fn lemma_be32_round_trip(n: nat)
    requires
        n < 0x1_0000_0000,
    ensures
        be32_value(be32(n)) == n,
        be32(n).len() == 4,
{
    assert(n / 0x1_0000 < 0x1_0000);
    assert(be16_value(be16(n / 0x1_0000)[0], be16(n / 0x1_0000)[1]) == n / 0x1_0000);
    assert(be16_value(be16(n % 0x1_0000)[0], be16(n % 0x1_0000)[1]) == n % 0x1_0000);
}

proof fn lemma_be32_value_round_trip(s: Seq<u8>)
    requires
        s.len() >= 4,
    ensures
        be32_value(s) < 0x1_0000_0000,
        be32(be32_value(s)) == s.take(4),
{
    let high = be16_value(s[0], s[1]);
    let low = be16_value(s[2], s[3]);
    let n = be32_value(s);
    assert(n / 0x1_0000 == high);
    assert(n % 0x1_0000 == low);
    assert(be32(n) =~= s.take(4));
}

/// Writing a counter in eight bytes and reading it back gives the counter.
pub proof fn lemma_be64_round_trip(n: u64)
    ensures
        be64_value(be64(n)) == n,
        be64(n).len() == 8,
{
    reveal(be64);
    let high = n as nat / 0x1_0000_0000;
    let low = n as nat % 0x1_0000_0000;
    lemma_be32_round_trip(high);
    lemma_be32_round_trip(low);
    assert(be64(n).skip(4) =~= be32(low));
}

/// Reading eight bytes as a number and writing it gives the same bytes.
pub proof fn lemma_be64_value_round_trip(s: Seq<u8>)
    requires
        s.len() >= 8,
    ensures
        be64_value(s) <= u64::MAX,
        be64(be64_value(s) as u64) == s.take(8),
{
    reveal(be64);
    let high = be32_value(s);
    let low = be32_value(s.skip(4));
    lemma_be32_value_round_trip(s);
    lemma_be32_value_round_trip(s.skip(4));
    let n = be64_value(s);
    assert(n / 0x1_0000_0000 == high);
    assert(n % 0x1_0000_0000 == low);
    assert(be64(n as u64) =~= s.take(8));
}

/// Different counters have different eight-byte forms.
pub proof fn lemma_be64_injective(a: u64, b: u64)
    requires
        be64(a) == be64(b),
    ensures
        a == b,
{
    lemma_be64_round_trip(a);
    lemma_be64_round_trip(b);
}

/// Appends `tail` to `buf`.
pub fn append(buf: &mut Vec<u8>, tail: &[u8])
    ensures
        final(buf)@ == old(buf)@ + tail@,
{
    let ghost before = buf@;
    buf.extend_from_slice(tail);
    assert(buf@ =~= before + tail@);
}

/// Appends the low sixteen bits of `n`, most significant byte first.
pub fn append_be16(buf: &mut Vec<u8>, n: u64)
    ensures
        final(buf)@ == old(buf)@ + be16(n as nat),
{
    let ghost before = buf@;
    buf.push(((n / 256) % 256) as u8);
    buf.push((n % 256) as u8);
    assert(buf@ =~= before + be16(n as nat));
}

/// Appends the low thirty-two bits of `n`, most significant byte first.
pub fn append_be32(buf: &mut Vec<u8>, n: u64)
    ensures
        final(buf)@ == old(buf)@ + be32(n as nat),
{
    let ghost before = buf@;
    append_be16(buf, n / 0x1_0000);
    append_be16(buf, n % 0x1_0000);
    assert(buf@ =~= before + be32(n as nat));
}

/// Appends `n` in eight bytes, most significant first.
pub fn append_be64(buf: &mut Vec<u8>, n: u64)
    ensures
        final(buf)@ == old(buf)@ + be64(n),
{
    let ghost before = buf@;
    append_be32(buf, n / 0x1_0000_0000);
    append_be32(buf, n % 0x1_0000_0000);
    proof {
        reveal(be64);
    }
    assert(buf@ =~= before + be64(n));
}

/// Reads the first eight bytes of `s` as a big-endian number.
pub fn read_be64(s: &[u8]) -> (n: u64)
    requires
        s@.len() >= 8,
    ensures
        n == be64_value(s@),
        be64(n) == s@.take(8),
{
    proof {
        lemma_be64_value_round_trip(s@);
        lemma_be32_value_round_trip(s@);
        lemma_be32_value_round_trip(s@.skip(4));
    }
    let high: u64 = (s[0] as u64 * 256 + s[1] as u64) * 0x1_0000 + s[2] as u64 * 256 + s[3] as u64;
    let low: u64 = (s[4] as u64 * 256 + s[5] as u64) * 0x1_0000 + s[6] as u64 * 256 + s[7] as u64;
    assert(high == be32_value(s@));
    assert(low == be32_value(s@.skip(4)));
    high * 0x1_0000_0000 + low
}

/// The thirty-two bytes of `s` that start at `at`.
pub fn array32(s: &[u8], at: usize) -> (a: [u8; 32])
    requires
        at + 32 <= s@.len(),
    ensures
        a@ == s@.subrange(at as int, at + 32),
{
    let len: usize = s.len();
    let mut a: [u8; 32] = [0u8; 32];
    let mut i: usize = 0;
    while i < 32
        invariant
            at + 32 <= len,
            len == s@.len(),
            i <= 32,
            forall|j: int| 0 <= j < i ==> a@[j] == s@[at + j],
        decreases 32 - i,
    {
        a[i] = s[at + i];
        i = i + 1;
    }
    assert(a@ =~= s@.subrange(at as int, at + 32));
    a
}

/// Numbers stand in bytes with the most significant byte first.
pub proof fn law_most_significant_byte_first(s: Seq<u8>)
    requires
        s.len() >= 8,
    ensures
        be16_value(s[0], s[1]) == s[0] * 0x100 + s[1],
        be64_value(s) == s[0] * 0x100_0000_0000_0000 + s[1] * 0x1_0000_0000_0000 + s[2]
            * 0x100_0000_0000 + s[3] * 0x1_0000_0000 + s[4] * 0x100_0000 + s[5] * 0x1_0000 + s[6]
            * 0x100 + s[7],
{
    assert(s.skip(4)[0] == s[4] && s.skip(4)[1] == s[5] && s.skip(4)[2] == s[6] && s.skip(4)[3]
        == s[7]);
}

/// Of a number that two bytes cannot hold, they hold what is left modulo 2^16.
pub proof fn law_two_bytes(n: nat)
    ensures
        be16(n).len() == 2,
        be16(n)[0] * 0x100 + be16(n)[1] == n % 0x1_0000,
{
}

} // verus!
