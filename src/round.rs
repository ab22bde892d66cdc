use vstd::prelude::*;

verus! {

/// Rotation of a word to the right by `n` bits, for `0 < n < 64`.
pub open spec fn rotr(x: u64, n: u64) -> u64
    recommends
        0 < n < 64,
{
    (x >> n) | (x << (64 - n) as u64)
}

/// Rotation of a word to the left by `n` bits, for `0 < n < 64`.
pub open spec fn rotl(x: u64, n: u64) -> u64
    recommends
        0 < n < 64,
{
    (x << n) | (x >> (64 - n) as u64)
}

/// One round on the pair `(x, y)` under the subkey `k`:
/// `x = (rotr(x, 8) + y) ^ k` modulo 2^64, then `y = rotl(y, 3) ^ x`.
pub open spec fn round_spec(x: u64, y: u64, k: u64) -> (u64, u64) {
    let x1 = vstd::wrapping::u64_specs::wrapping_add(rotr(x, 8), y) ^ k;
    let y1 = rotl(y, 3) ^ x1;
    (x1, y1)
}

/// The inverse round: `y = rotr(y ^ x, 3)`, then `x = rotl((x ^ k) - y, 8)`
/// modulo 2^64.
pub open spec fn inv_round_spec(x: u64, y: u64, k: u64) -> (u64, u64) {
    let y1 = rotr(y ^ x, 3);
    let x1 = rotl(vstd::wrapping::u64_specs::wrapping_sub(x ^ k, y1), 8);
    (x1, y1)
}

fn rotate_right(x: u64, n: u64) -> (r: u64)
    requires
        0 < n < 64,
    ensures
        r == rotr(x, n),
{
    (x >> n) | (x << (64 - n))
}

fn rotate_left(x: u64, n: u64) -> (r: u64)
    requires
        0 < n < 64,
    ensures
        r == rotl(x, n),
{
    (x << n) | (x >> (64 - n))
}

/// Applies one round to `(x, y)` in place.
pub(crate) fn round(x: &mut u64, y: &mut u64, k: u64)
    ensures
        (*final(x), *final(y)) == round_spec(*old(x), *old(y), k),
{
    *x = rotate_right(*x, 8);
    *x = x.wrapping_add(*y);
    *x = *x ^ k;
    *y = rotate_left(*y, 3);
    *y = *y ^ *x;
}

/// Applies the inverse round to `(x, y)` in place.
pub(crate) fn inv_round(x: &mut u64, y: &mut u64, k: u64)
    ensures
        (*final(x), *final(y)) == inv_round_spec(*old(x), *old(y), k),
{
    *y = *y ^ *x;
    *y = rotate_right(*y, 3);
    *x = *x ^ k;
    *x = x.wrapping_sub(*y);
    *x = rotate_left(*x, 8);
}

/// The inverse round undoes the round under the same subkey, for every pair
/// and every subkey.
pub proof fn lemma_inv_round(x: u64, y: u64, k: u64)
    ensures
        ({
            let (x1, y1) = round_spec(x, y, k);
            inv_round_spec(x1, y1, k)
        }) == (x, y),
{
    let r8 = rotr(x, 8);
    let s = vstd::wrapping::u64_specs::wrapping_add(r8, y);
    let x1 = s ^ k;
    let y1 = rotl(y, 3) ^ x1;
    assert(rotr(y1 ^ x1, 3) == y) by (bit_vector)
        requires
            y1 == rotl(y, 3) ^ x1,
    ;
    assert(x1 ^ k == s) by (bit_vector)
        requires
            x1 == s ^ k,
    ;
    assert(vstd::wrapping::u64_specs::wrapping_sub(s, y) == r8);
    assert(rotl(r8, 8) == x) by (bit_vector)
        requires
            r8 == rotr(x, 8),
    ;
}

} // verus!
