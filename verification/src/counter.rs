//! The arithmetic of the counters: 32-bit signed, 64-bit unsigned, both wrapping around.
use vstd::prelude::*;

verus! {

/// The 32-bit signed integer that agrees with `x` modulo 2^32.
pub open spec fn wrap_i32(x: int) -> i32 {
    let low = x % 0x1_0000_0000;
    if low < 0x8000_0000 {
        low as i32
    } else {
        (low - 0x1_0000_0000) as i32
    }
}

/// The 64-bit unsigned integer that agrees with `x` modulo 2^64.
pub open spec fn wrap_u64(x: int) -> u64 {
    (x % 0x1_0000_0000_0000_0000) as u64
}

/// A wrapped value differs from the value by a multiple of 2^32; of all 32-bit integers it alone does.
pub proof fn law_wrap_agrees(x: int)
    ensures
        (wrap_i32(x) - x) % 0x1_0000_0000 == 0,
        forall|other: i32|
            #![trigger (other - x) % 0x1_0000_0000]
            (other - x) % 0x1_0000_0000 == 0 ==> other == wrap_i32(x),
{
}

/// A wrapped value differs from the value by a multiple of 2^64; of all 64-bit integers it alone does.
pub proof fn law_wrap_u64_agrees(x: int)
    ensures
        (wrap_u64(x) - x) % 0x1_0000_0000_0000_0000 == 0,
        forall|other: u64|
            #![trigger (other - x) % 0x1_0000_0000_0000_0000]
            (other - x) % 0x1_0000_0000_0000_0000 == 0 ==> other == wrap_u64(x),
{
}

/// A value that fits is its own wrapped form.
pub proof fn lemma_wrap_small(x: int)
    requires
        i32::MIN <= x <= i32::MAX,
    ensures
        wrap_i32(x) == x,
{
}

/// Wrapping a part of a sum before the whole changes nothing.
pub proof fn lemma_wrap_absorbs(x: int, y: int)
    ensures
        wrap_i32(wrap_i32(x) + y) == wrap_i32(x + y),
{
    let low = x % 0x1_0000_0000;
    assert(x == 0x1_0000_0000 * (x / 0x1_0000_0000) + low);
    if low < 0x8000_0000 {
        assert((low + y) % 0x1_0000_0000 == (x + y) % 0x1_0000_0000);
    } else {
        assert((low - 0x1_0000_0000 + y) % 0x1_0000_0000 == (x + y) % 0x1_0000_0000);
    }
}

/// Wrapping a part of a sum before the whole changes nothing.
pub proof fn lemma_wrap_u64_absorbs(x: int, y: int)
    ensures
        wrap_u64(wrap_u64(x) + y) == wrap_u64(x + y),
{
    let low = x % 0x1_0000_0000_0000_0000;
    assert(x == 0x1_0000_0000_0000_0000 * (x / 0x1_0000_0000_0000_0000) + low);
    assert((low + y) % 0x1_0000_0000_0000_0000 == (x + y) % 0x1_0000_0000_0000_0000);
}

/// A counter raised by less than 2^64 is back where it was only if it was not raised.
pub proof fn lemma_wrap_u64_unmoved(version: u64, by: int)
    requires
        0 <= by < 0x1_0000_0000_0000_0000,
        wrap_u64(version + by) == version,
    ensures
        by == 0,
{
}

/// `num` as a 32-bit signed integer, its upper bits dropped.
pub fn truncate(num: usize) -> (low: i32)
    ensures
        low == wrap_i32(num as int),
{
    let wide = num as u64;
    proof {
        let low = (wide % 0x1_0000_0000) as u64;
        assert(low < 0x8000_0000 ==> wide as i32 == low) by (bit_vector)
            requires
                low == wide % 0x1_0000_0000,
        ;
        assert(low >= 0x8000_0000 ==> wide as i32 == low - 0x1_0000_0000) by (bit_vector)
            requires
                low == wide % 0x1_0000_0000,
        ;
    }
    wide as i32
}

/// `count` raised by `num`.
pub fn raise(count: i32, num: usize) -> (sum: i32)
    ensures
        sum == wrap_i32(count + num),
{
    proof {
        lemma_wrap_absorbs(num as int, count as int);
    }
    count.wrapping_add(truncate(num))
}

/// `count` lowered by one.
pub fn lower(count: i32) -> (rest: i32)
    ensures
        rest == wrap_i32(count - 1),
{
    count.wrapping_sub(1)
}

/// The version after `version`.
pub fn next_version(version: u64) -> (next: u64)
    ensures
        next == wrap_u64(version + 1),
{
    version.wrapping_add(1)
}

} // verus!
