//! Little-endian encodings of the numbers that the protocols send.
use vstd::prelude::*;

verus! {

/// The number that two little-endian bytes stand for.
pub open spec fn le_value2(s: Seq<u8>) -> nat {
    (s[0] + 0x100 * s[1]) as nat
}

/// The number that four little-endian bytes stand for.
pub open spec fn le_value4(s: Seq<u8>) -> nat {
    le_value2(s.take(2)) + 0x1_0000 * le_value2(s.skip(2))
}

/// The number that eight little-endian bytes stand for.
#[verifier::opaque]
pub open spec fn le_value8(s: Seq<u8>) -> nat {
    le_value4(s.take(4)) + 0x1_0000_0000 * le_value4(s.skip(4))
}

/// The two low bytes of a number, the lowest first.
pub open spec fn le_bytes2(x: nat) -> Seq<u8> {
    seq![(x % 0x100) as u8, (x / 0x100 % 0x100) as u8]
}

/// The four low bytes of a number, the lowest first.
pub open spec fn le_bytes4(x: nat) -> Seq<u8> {
    le_bytes2(x % 0x1_0000) + le_bytes2(x / 0x1_0000)
}

/// The eight low bytes of a number, the lowest first.
#[verifier::opaque]
pub open spec fn le_bytes8(x: nat) -> Seq<u8> {
    le_bytes4(x % 0x1_0000_0000) + le_bytes4(x / 0x1_0000_0000)
}

/// Reading two bytes undoes writing them.
pub proof fn le_round_trip2(x: nat)
    requires
        x < 0x1_0000,
    ensures
        le_bytes2(x).len() == 2,
        le_value2(le_bytes2(x)) == x,
{
}

/// Reading four bytes undoes writing them.
pub proof fn le_round_trip4(x: nat)
    requires
        x < 0x1_0000_0000,
    ensures
        le_bytes4(x).len() == 4,
        le_value4(le_bytes4(x)) == x,
{
    let low = le_bytes2(x % 0x1_0000);
    let high = le_bytes2(x / 0x1_0000);
    assert(le_bytes4(x).take(2) == low);
    assert(le_bytes4(x).skip(2) == high);
    le_round_trip2(x % 0x1_0000);
    le_round_trip2(x / 0x1_0000);
}

/// Reading eight bytes undoes writing them.
pub proof fn le_round_trip8(x: nat)
    requires
        x < 0x1_0000_0000_0000_0000,
    ensures
        le_bytes8(x).len() == 8,
        le_value8(le_bytes8(x)) == x,
{
    reveal(le_bytes8);
    reveal(le_value8);
    let low = le_bytes4(x % 0x1_0000_0000);
    let high = le_bytes4(x / 0x1_0000_0000);
    assert(le_bytes8(x).take(4) == low);
    assert(le_bytes8(x).skip(4) == high);
    le_round_trip4(x % 0x1_0000_0000);
    le_round_trip4(x / 0x1_0000_0000);
}

/// Writing the number that four bytes stand for gives the bytes back.
pub proof fn le_round_trip_bytes4(s: Seq<u8>)
    requires
        s.len() == 4,
    ensures
        le_value4(s) < 0x1_0000_0000,
        le_bytes4(le_value4(s)) == s,
{
    let low = le_value2(s.take(2));
    let high = le_value2(s.skip(2));
    assert(low < 0x1_0000 && high < 0x1_0000);
    assert(le_value4(s) % 0x1_0000 == low);
    assert(le_value4(s) / 0x1_0000 == high);
    assert(le_bytes2(low) =~= s.take(2));
    assert(le_bytes2(high) =~= s.skip(2));
    assert(s.take(2) + s.skip(2) =~= s);
}

/// What four bytes stand for: the first counts once, each other one 256 times
/// as much as the one before.
pub proof fn le_value4_spelled_out(s: Seq<u8>)
    requires
        s.len() == 4,
    ensures
        le_value4(s) == s[0] + 0x100 * s[1] + 0x1_0000 * s[2] + 0x100_0000 * s[3],
{
}

/// What eight bytes stand for: the first counts once, each other one 256 times
/// as much as the one before.
pub proof fn le_value8_spelled_out(s: Seq<u8>)
    requires
        s.len() == 8,
    ensures
        le_value8(s) == s[0] + 0x100 * s[1] + 0x1_0000 * s[2] + 0x100_0000 * s[3] + 0x1_0000_0000
            * s[4] + 0x100_0000_0000 * s[5] + 0x1_0000_0000_0000 * s[6] + 0x100_0000_0000_0000
            * s[7],
{
    reveal(le_value8);
    le_value4_spelled_out(s.take(4));
    le_value4_spelled_out(s.skip(4));
}

/// What two bytes stand for.
pub proof fn le_value2_spelled_out(s: Seq<u8>)
    requires
        s.len() == 2,
    ensures
        le_value2(s) == s[0] + 0x100 * s[1],
{
}

/// The 32 low bits of a number.
pub fn low_half(x: u64) -> (r: u32)
    ensures
        r == x % 0x1_0000_0000,
{
    let r = x as u32;
    assert(r == x % 0x1_0000_0000) by (bit_vector)
        requires
            r == x as u32,
    ;
    r
}

pub fn u16_to_le(x: u16) -> (r: [u8; 2])
    ensures
        r@ == le_bytes2(x as nat),
{
    [(x % 0x100) as u8, (x / 0x100) as u8]
}

/// The two low bytes of a number.
pub fn low_bytes2(x: u64) -> (r: [u8; 2])
    ensures
        r@ == le_bytes2(x as nat),
{
    [(x % 0x100) as u8, (x / 0x100 % 0x100) as u8]
}

pub fn u32_to_le(x: u32) -> (r: [u8; 4])
    ensures
        r@ == le_bytes4(x as nat),
{
    let low = u16_to_le((x % 0x1_0000) as u16);
    let high = u16_to_le((x / 0x1_0000) as u16);
    let r = [low[0], low[1], high[0], high[1]];
    assert(r@ =~= le_bytes4(x as nat));
    r
}

pub fn u64_to_le(x: u64) -> (r: [u8; 8])
    ensures
        r@ == le_bytes8(x as nat),
{
    let low = u32_to_le((x % 0x1_0000_0000) as u32);
    let high = u32_to_le((x / 0x1_0000_0000) as u32);
    let r = [low[0], low[1], low[2], low[3], high[0], high[1], high[2], high[3]];
    proof {
        reveal(le_bytes8);
        assert(r@ =~= le_bytes8(x as nat));
    }
    r
}

/// The number in the two bytes from `at` on.
pub fn u16_from_le(s: &[u8], at: usize) -> (r: u16)
    requires
        at + 2 <= s@.len(),
    ensures
        r == le_value2(s@.subrange(at as int, at + 2)),
{
    s[at] as u16 + 0x100 * (s[at + 1] as u16)
}

/// The number in the four bytes from `at` on.
pub fn u32_from_le(s: &[u8], at: usize) -> (r: u32)
    requires
        at + 4 <= s@.len(),
    ensures
        r == le_value4(s@.subrange(at as int, at + 4)),
{
    assert(s@.len() == s.len());
    let low = u16_from_le(s, at);
    let high = u16_from_le(s, at + 2);
    proof {
        let part = s@.subrange(at as int, at + 4);
        assert(part.take(2) =~= s@.subrange(at as int, at + 2));
        assert(part.skip(2) =~= s@.subrange(at + 2, at + 4));
    }
    low as u32 + 0x1_0000 * (high as u32)
}

/// The number in the eight bytes from `at` on.
pub fn u64_from_le(s: &[u8], at: usize) -> (r: u64)
    requires
        at + 8 <= s@.len(),
    ensures
        r == le_value8(s@.subrange(at as int, at + 8)),
{
    assert(s@.len() == s.len());
    let low = u32_from_le(s, at);
    let high = u32_from_le(s, at + 4);
    proof {
        reveal(le_value8);
        let part = s@.subrange(at as int, at + 8);
        assert(part.take(4) =~= s@.subrange(at as int, at + 4));
        assert(part.skip(4) =~= s@.subrange(at + 4, at + 8));
    }
    low as u64 + 0x1_0000_0000 * (high as u64)
}

} // verus!
