use vstd::prelude::*;

use crate::round::{round, round_spec};

verus! {

/// Number of rounds, and of round keys in a schedule.
pub const ROUNDS: usize = 32;

/// The key pair `(b, a)` after `n` steps of the schedule recurrence started
/// from the key words `(k0, k1)`: step `i` applies the round to the pair
/// with the round index `i` as subkey.
pub open spec fn key_state(k0: u64, k1: u64, n: nat) -> (u64, u64)
    decreases n,
{
    if n == 0 {
        (k0, k1)
    } else {
        let (b, a) = key_state(k0, k1, (n - 1) as nat);
        round_spec(b, a, (n - 1) as u64)
    }
}

/// The 32 round keys of the key `(k0, k1)`: round key `i` is the second word
/// of the key pair after `i` steps.
pub open spec fn schedule_spec(k0: u64, k1: u64) -> Seq<u64> {
    Seq::new(ROUNDS as nat, |i: int| key_state(k0, k1, i as nat).1)
}

/// Writes the 32 round keys of the key `k[0], k[1]` into `rk[0..32]`;
/// the rest of `rk` is left as it was.
pub fn key_schedule(k: &[u64], rk: &mut [u64])
    requires
        k@.len() >= 2,
        old(rk)@.len() >= ROUNDS,
    ensures
        final(rk)@ == schedule_spec(k@[0], k@[1]) + old(rk)@.subrange(
            ROUNDS as int,
            old(rk)@.len() as int,
        ),
{
    let mut b: u64 = k[0];
    let mut a: u64 = k[1];
    let ghost k0 = k@[0];
    let ghost k1 = k@[1];
    let ghost rk0 = rk@;
    let mut i: usize = 0;
    while i < ROUNDS - 1
        invariant
            0 <= i <= ROUNDS - 1,
            rk@.len() == rk0.len(),
            rk0.len() >= ROUNDS,
            (b, a) == key_state(k0, k1, i as nat),
            forall|j: int| 0 <= j < i ==> rk@[j] == #[trigger] schedule_spec(k0, k1)[j],
            forall|j: int| ROUNDS <= j < rk0.len() ==> rk@[j] == rk0[j],
        decreases ROUNDS - i,
    {
        rk[i] = a;
        round(&mut b, &mut a, i as u64);
        i = i + 1;
    }
    rk[ROUNDS - 1] = a;
    assert(rk@ =~= schedule_spec(k0, k1) + rk0.subrange(ROUNDS as int, rk0.len() as int));
}

} // verus!
