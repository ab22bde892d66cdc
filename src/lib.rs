//! A 128-bit block, 128-bit key ARX block cipher of the Speck family:
//! two 64-bit words per block, two per key, 32 rounds.
//!
//! Every operation is a total function of its inputs; the contracts state each
//! result over the spec functions of the modules below.

mod cipher;
mod round;
mod schedule;

pub use cipher::{
    decrypt, decrypt_spec, dec_state, enc_state, encrypt, encrypt_key_spec, encrypt_ks,
    encrypt_spec, key_enc_state, lemma_decrypt_encrypt, lemma_encrypt_equiv, lemma_round_trip,
};
pub use round::{inv_round_spec, lemma_inv_round, rotl, rotr, round_spec};
pub use schedule::{key_schedule, key_state, schedule_spec, ROUNDS};
