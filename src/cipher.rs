use vstd::prelude::*;

use crate::round::{inv_round, inv_round_spec, lemma_inv_round, round, round_spec};
use crate::schedule::{key_state, schedule_spec, ROUNDS};

verus! {

/// The block `(w0, w1)` after the first `n` rounds under the round keys `ks`:
/// round `i` applies the round to the pair with `ks[i]` as subkey.
pub open spec fn enc_state(w0: u64, w1: u64, ks: Seq<u64>, n: nat) -> (u64, u64)
    decreases n,
{
    if n == 0 {
        (w0, w1)
    } else {
        let (y, x) = enc_state(w0, w1, ks, (n - 1) as nat);
        round_spec(y, x, ks[n - 1])
    }
}

/// The block `(w0, w1)` after the inverse rounds `n - 1` down to `0` under the
/// round keys `ks`.
pub open spec fn dec_state(w0: u64, w1: u64, ks: Seq<u64>, n: nat) -> (u64, u64)
    decreases n,
{
    if n == 0 {
        (w0, w1)
    } else {
        let (y, x) = inv_round_spec(w0, w1, ks[n - 1]);
        dec_state(y, x, ks, (n - 1) as nat)
    }
}

/// Encryption of the block `(w0, w1)` under the round keys `ks[0..32]`.
pub open spec fn encrypt_spec(w0: u64, w1: u64, ks: Seq<u64>) -> (u64, u64) {
    enc_state(w0, w1, ks, ROUNDS as nat)
}

/// Decryption of the block `(w0, w1)` under the round keys `ks[0..32]`.
pub open spec fn decrypt_spec(w0: u64, w1: u64, ks: Seq<u64>) -> (u64, u64) {
    dec_state(w0, w1, ks, ROUNDS as nat)
}

/// Block and key pair `(y, x, b, a)` after `n` steps of encryption straight
/// from the key: each step applies the round to the block with the current
/// `a` as subkey, then advances the key pair with the step index as subkey.
pub open spec fn key_enc_state(w0: u64, w1: u64, k0: u64, k1: u64, n: nat) -> (
    u64,
    u64,
    u64,
    u64,
)
    decreases n,
{
    if n == 0 {
        (w0, w1, k0, k1)
    } else {
        let (y, x, b, a) = key_enc_state(w0, w1, k0, k1, (n - 1) as nat);
        let (y1, x1) = round_spec(y, x, a);
        let (b1, a1) = round_spec(b, a, (n - 1) as u64);
        (y1, x1, b1, a1)
    }
}

/// Encryption of the block `(w0, w1)` straight from the key `(k0, k1)`.
pub open spec fn encrypt_key_spec(w0: u64, w1: u64, k0: u64, k1: u64) -> (u64, u64) {
    let (y, x, b, a) = key_enc_state(w0, w1, k0, k1, ROUNDS as nat);
    (y, x)
}

/// Encrypts the block `pt[0], pt[1]` under the key `k[0], k[1]`, deriving
/// each round key as it goes, and writes the result to `ct[0], ct[1]`.
pub fn encrypt(ct: &mut [u64], pt: &[u64], k: &[u64])
    requires
        old(ct)@.len() >= 2,
        pt@.len() >= 2,
        k@.len() >= 2,
    ensures
        ({
            let (y, x) = encrypt_key_spec(pt@[0], pt@[1], k@[0], k@[1]);
            final(ct)@ == old(ct)@.update(1, x).update(0, y)
        }),
{
    let ghost (w0, w1, k0, k1) = (pt@[0], pt@[1], k@[0], k@[1]);
    let mut y: u64 = pt[0];
    let mut x: u64 = pt[1];
    let mut b: u64 = k[0];
    let mut a: u64 = k[1];
    let mut i: usize = 0;
    while i < ROUNDS
        invariant
            0 <= i <= ROUNDS,
            (y, x, b, a) == key_enc_state(w0, w1, k0, k1, i as nat),
        decreases ROUNDS - i,
    {
        round(&mut y, &mut x, a);
        round(&mut b, &mut a, i as u64);
        i = i + 1;
    }
    ct[1] = x;
    ct[0] = y;
}

/// Encrypts the block `pt[0], pt[1]` under the round keys `ks[0..32]` and
/// writes the result to `ct[0], ct[1]`.
pub fn encrypt_ks(ct: &mut [u64], pt: &[u64], ks: &[u64])
    requires
        old(ct)@.len() >= 2,
        pt@.len() >= 2,
        ks@.len() >= ROUNDS,
    ensures
        ({
            let (y, x) = encrypt_spec(pt@[0], pt@[1], ks@);
            final(ct)@ == old(ct)@.update(1, x).update(0, y)
        }),
{
    let ghost (w0, w1) = (pt@[0], pt@[1]);
    let mut y: u64 = pt[0];
    let mut x: u64 = pt[1];
    let mut i: usize = 0;
    while i < ROUNDS
        invariant
            0 <= i <= ROUNDS,
            ks@.len() >= ROUNDS,
            (y, x) == enc_state(w0, w1, ks@, i as nat),
        decreases ROUNDS - i,
    {
        round(&mut y, &mut x, ks[i]);
        i = i + 1;
    }
    ct[1] = x;
    ct[0] = y;
}

/// Decrypts the block `ct[0], ct[1]` under the round keys `ks[0..32]`, taken
/// from the last to the first, and writes the result to `pt[0], pt[1]`.
pub fn decrypt(ct: &[u64], pt: &mut [u64], ks: &[u64])
    requires
        ct@.len() >= 2,
        old(pt)@.len() >= 2,
        ks@.len() >= ROUNDS,
    ensures
        ({
            let (y, x) = decrypt_spec(ct@[0], ct@[1], ks@);
            final(pt)@ == old(pt)@.update(0, y).update(1, x)
        }),
{
    let ghost (w0, w1) = (ct@[0], ct@[1]);
    let mut y: u64 = ct[0];
    let mut x: u64 = ct[1];
    let mut i: usize = ROUNDS;
    while i > 0
        invariant
            0 <= i <= ROUNDS,
            ks@.len() >= ROUNDS,
            dec_state(y, x, ks@, i as nat) == decrypt_spec(w0, w1, ks@),
        decreases i,
    {
        inv_round(&mut y, &mut x, ks[i - 1]);
        i = i - 1;
    }
    pt[0] = y;
    pt[1] = x;
}

proof fn lemma_dec_enc_state(w0: u64, w1: u64, ks: Seq<u64>, n: nat)
    ensures
        ({
            let (y, x) = enc_state(w0, w1, ks, n);
            dec_state(y, x, ks, n)
        }) == (w0, w1),
    decreases n,
{
    if n > 0 {
        let (y, x) = enc_state(w0, w1, ks, (n - 1) as nat);
        lemma_inv_round(y, x, ks[n - 1]);
        lemma_dec_enc_state(w0, w1, ks, (n - 1) as nat);
    }
}

/// Decryption undoes encryption under the same round keys, for every block
/// and every sequence of round keys.
pub proof fn lemma_decrypt_encrypt(w0: u64, w1: u64, ks: Seq<u64>)
    ensures
        ({
            let (y, x) = encrypt_spec(w0, w1, ks);
            decrypt_spec(y, x, ks)
        }) == (w0, w1),
{
    lemma_dec_enc_state(w0, w1, ks, ROUNDS as nat);
}

/// Decrypting with the schedule of a key the encryption of a block under that
/// same schedule gives the block back.
pub proof fn lemma_round_trip(k0: u64, k1: u64, w0: u64, w1: u64)
    ensures
        ({
            let ks = schedule_spec(k0, k1);
            let (y, x) = encrypt_spec(w0, w1, ks);
            decrypt_spec(y, x, ks)
        }) == (w0, w1),
{
    lemma_decrypt_encrypt(w0, w1, schedule_spec(k0, k1));
}

proof fn lemma_key_enc_state(w0: u64, w1: u64, k0: u64, k1: u64, n: nat)
    requires
        n <= ROUNDS,
    ensures
        ({
            let (y, x) = enc_state(w0, w1, schedule_spec(k0, k1), n);
            let (b, a) = key_state(k0, k1, n);
            key_enc_state(w0, w1, k0, k1, n) == (y, x, b, a)
        }),
    decreases n,
{
    if n > 0 {
        lemma_key_enc_state(w0, w1, k0, k1, (n - 1) as nat);
        assert(schedule_spec(k0, k1)[n - 1] == key_state(k0, k1, (n - 1) as nat).1);
    }
}

/// Encrypting straight from a key gives what encrypting under the key's
/// schedule gives, for every key and every block.
pub proof fn lemma_encrypt_equiv(w0: u64, w1: u64, k0: u64, k1: u64)
    ensures
        encrypt_key_spec(w0, w1, k0, k1) == encrypt_spec(w0, w1, schedule_spec(k0, k1)),
{
    lemma_key_enc_state(w0, w1, k0, k1, ROUNDS as nat);
}

} // verus!
