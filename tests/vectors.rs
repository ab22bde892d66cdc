use speck::ROUNDS;

#[test]
fn key_schedule() {
    let k: [u64; 2] = [0x0f0e0d0c0b0a0908, 0x0706050403020100];
    let mut rk: [u64; 32] = [0; 32];

    speck::key_schedule(&k, &mut rk);
    assert_eq!(rk[31], 0x2199c870db8ec93fu64);
}

#[test]
fn encrypt() {
    let k: [u64; 2] = [0x0f0e0d0c0b0a0908, 0x0706050403020100];
    let pt: [u64; 2] = [0x6c61766975716520, 0x7469206564616d20];
    let expected: [u64; 2] = [0xa65d985179783265, 0x7860fedf5c570d18];
    let mut ct: [u64; 2] = [0, 0];
    speck::encrypt(&mut ct, &pt, &k);
    assert_eq!(expected, ct);
}

#[test]
fn encrypt_ks() {
    let k: [u64; 2] = [0x0f0e0d0c0b0a0908, 0x0706050403020100];
    let pt: [u64; 2] = [0x6c61766975716520, 0x7469206564616d20];
    let expected: [u64; 2] = [0xa65d985179783265, 0x7860fedf5c570d18];
    let mut ct: [u64; 2] = [0, 0];
    let mut rk: [u64; 32] = [0; 32];

    speck::key_schedule(&k, &mut rk);
    speck::encrypt_ks(&mut ct, &pt, &rk);

    assert_eq!(expected, ct);
}

#[test]
fn decrypt() {
    let k: [u64; 2] = [0x0f0e0d0c0b0a0908, 0x0706050403020100];
    let mut rk: [u64; 32] = [0; 32];

    speck::key_schedule(&k, &mut rk);

    let ct: [u64; 2] = [0xa65d985179783265, 0x7860fedf5c570d18];
    let expected: [u64; 2] = [0x6c61766975716520, 0x7469206564616d20];
    let mut pt: [u64; 2] = [0, 0];
    speck::decrypt(&ct, &mut pt, &rk);
    assert_eq!(pt, expected);
}

#[test]
fn schedule_starts_with_second_key_word() {
    let k: [u64; 2] = [0x0f0e0d0c0b0a0908, 0x0706050403020100];
    let mut rk: [u64; 32] = [0; 32];
    speck::key_schedule(&k, &mut rk);
    assert_eq!(rk[0], 0x0706050403020100);
    assert_eq!(ROUNDS, 32);
}

#[test]
fn schedule_of_zero_key() {
    // First step: round(0, 0, 0) leaves the pair at zero; the second uses subkey 1.
    let k: [u64; 2] = [0, 0];
    let mut rk: [u64; 32] = [0xff; 32];
    speck::key_schedule(&k, &mut rk);
    assert_eq!(rk[0], 0);
    assert_eq!(rk[1], 0);
    // Step 1 has subkey 1: (0, 0) becomes (1, 1).
    assert_eq!(rk[2], 1);
    // Step 2 has subkey 2: x = (rotr(1, 8) + 1) ^ 2, y = rotl(1, 3) ^ x.
    assert_eq!(rk[3], 0x010000000000000b);
}

#[test]
fn schedule_leaves_tail_of_longer_buffer() {
    let k: [u64; 2] = [0x0f0e0d0c0b0a0908, 0x0706050403020100];
    let mut rk: [u64; 34] = [7; 34];
    speck::key_schedule(&k, &mut rk);
    assert_eq!(rk[31], 0x2199c870db8ec93f);
    assert_eq!(rk[32], 7);
    assert_eq!(rk[33], 7);
}

#[test]
fn encrypt_agrees_with_schedule_on_other_keys() {
    let keys: [[u64; 2]; 3] = [[0, 0], [u64::MAX, u64::MAX], [1, 0x8000000000000000]];
    let blocks: [[u64; 2]; 3] = [[0, 0], [u64::MAX, 0], [0x0123456789abcdef, 0xfedcba9876543210]];
    for k in keys.iter() {
        let mut rk: [u64; 32] = [0; 32];
        speck::key_schedule(k, &mut rk);
        for pt in blocks.iter() {
            let mut a: [u64; 2] = [0, 0];
            let mut b: [u64; 2] = [0, 0];
            speck::encrypt(&mut a, pt, k);
            speck::encrypt_ks(&mut b, pt, &rk);
            assert_eq!(a, b);
        }
    }
}

#[test]
fn decrypt_undoes_encrypt_on_other_keys() {
    let keys: [[u64; 2]; 3] = [[0, 0], [u64::MAX, u64::MAX], [1, 0x8000000000000000]];
    let blocks: [[u64; 2]; 3] = [[0, 0], [u64::MAX, 0], [0x0123456789abcdef, 0xfedcba9876543210]];
    for k in keys.iter() {
        let mut rk: [u64; 32] = [0; 32];
        speck::key_schedule(k, &mut rk);
        for pt in blocks.iter() {
            let mut ct: [u64; 2] = [0, 0];
            let mut back: [u64; 2] = [1, 1];
            speck::encrypt_ks(&mut ct, pt, &rk);
            assert_ne!(&ct, pt);
            speck::decrypt(&ct, &mut back, &rk);
            assert_eq!(&back, pt);
        }
    }
}

#[test]
fn decrypt_undoes_encrypt_under_arbitrary_round_keys() {
    let mut rk: [u64; 32] = [0; 32];
    for i in 0..32 {
        rk[i] = (i as u64).wrapping_mul(0x9e3779b97f4a7c15);
    }
    let pt: [u64; 2] = [42, 4242];
    let mut ct: [u64; 2] = [0, 0];
    let mut back: [u64; 2] = [0, 0];
    speck::encrypt_ks(&mut ct, &pt, &rk);
    speck::decrypt(&ct, &mut back, &rk);
    assert_eq!(back, pt);
}

#[test]
fn repeated_calls_give_identical_results() {
    let k: [u64; 2] = [0x0f0e0d0c0b0a0908, 0x0706050403020100];
    let pt: [u64; 2] = [0x6c61766975716520, 0x7469206564616d20];
    let mut rk1: [u64; 32] = [0; 32];
    let mut rk2: [u64; 32] = [1; 32];
    speck::key_schedule(&k, &mut rk1);
    speck::key_schedule(&k, &mut rk2);
    assert_eq!(rk1, rk2);
    let mut c1: [u64; 2] = [0, 0];
    let mut c2: [u64; 2] = [5, 5];
    speck::encrypt(&mut c1, &pt, &k);
    speck::encrypt(&mut c2, &pt, &k);
    assert_eq!(c1, c2);
    let mut d1: [u64; 2] = [0, 0];
    let mut d2: [u64; 2] = [9, 9];
    speck::decrypt(&c1, &mut d1, &rk1);
    speck::decrypt(&c1, &mut d2, &rk1);
    assert_eq!(d1, d2);
}

#[test]
fn output_words_keep_their_order() {
    let k: [u64; 2] = [0x0f0e0d0c0b0a0908, 0x0706050403020100];
    let pt: [u64; 2] = [0x6c61766975716520, 0x7469206564616d20];
    let mut ct: [u64; 3] = [0, 0, 0xabc];
    speck::encrypt(&mut ct, &pt, &k);
    assert_eq!(ct[0], 0xa65d985179783265);
    assert_eq!(ct[1], 0x7860fedf5c570d18);
    assert_eq!(ct[2], 0xabc);
}
