use lpc_checksum::checksum::{checksum_full, checksum_incremental, read_le_u32, sign_at, write_signature};

fn window_of_words(words: [u32; 8]) -> Vec<u8> {
    let mut v = Vec::new();
    for w in words.iter() {
        v.extend_from_slice(&w.to_le_bytes());
    }
    v
}

fn word(d: &[u8], i: usize) -> u32 {
    u32::from_le_bytes([d[i], d[i + 1], d[i + 2], d[i + 3]])
}

fn sum_words(d: &[u8], n: usize) -> u32 {
    let mut s: u32 = 0;
    for k in 0..n {
        s = s.wrapping_add(word(d, 4 * k));
    }
    s
}

/// Small deterministic byte generator for arrangement tests.
fn pseudo_random_bytes(seed: u32, n: usize) -> Vec<u8> {
    let mut x = seed;
    let mut v = Vec::new();
    for _ in 0..n {
        x = x.wrapping_mul(1664525).wrapping_add(1013904223);
        v.push((x >> 24) as u8);
    }
    v
}

#[test]
fn signature_cancels_first_seven_words() {
    let mut w = window_of_words([0x2000_8000, 0x0000_0101, 0x0000_0201, 0x0000_0301, 0x0000_0401, 0x0000_0501, 0x0000_0601, 0xdead_beef]);
    let s = sum_words(&w, 7);
    write_signature(&mut w);
    assert_eq!(word(&w, 28), 0u32.wrapping_sub(s));
    assert_eq!(sum_words(&w, 8), 0);
}

#[test]
fn signature_cancels_random_windows() {
    for seed in 0..50u32 {
        let mut w = pseudo_random_bytes(seed, 32);
        let before = w.clone();
        let s = sum_words(&w, 7);
        write_signature(&mut w);
        assert_eq!(word(&w, 28), 0u32.wrapping_sub(s));
        assert_eq!(sum_words(&w, 8), 0);
        assert_eq!(&w[..28], &before[..28]);
    }
}

#[test]
fn signing_twice_gives_same_word() {
    let mut w = pseudo_random_bytes(7, 32);
    write_signature(&mut w);
    let once = w.clone();
    write_signature(&mut w);
    assert_eq!(w, once);
}

#[test]
fn full_and_incremental_checksums_agree() {
    for seed in 0..100u32 {
        let d = pseudo_random_bytes(seed, 28);
        assert_eq!(checksum_full(&d, 0), checksum_incremental(&d, 0));
        assert_eq!(checksum_full(&d, 0), sum_words(&d, 7));
    }
    let ones = vec![0xffu8; 28];
    assert_eq!(checksum_full(&ones, 0), checksum_incremental(&ones, 0));
    assert_eq!(checksum_incremental(&ones, 0), 0xffff_fff9);
}

#[test]
fn checksum_at_offset() {
    let mut d = vec![0xaau8; 5];
    d.extend(window_of_words([1, 2, 3, 4, 5, 6, 7, 0]));
    assert_eq!(checksum_full(&d, 5), 28);
    assert_eq!(checksum_incremental(&d, 5), 28);
}

#[test]
fn all_zero_words_sign_to_zero() {
    let mut w = vec![0u8; 28];
    w.extend_from_slice(&[0x11, 0x22, 0x33, 0x44]);
    write_signature(&mut w);
    assert_eq!(w, vec![0u8; 32]);
}

#[test]
fn wrapping_sum_of_zero_signs_to_zero() {
    let mut w = window_of_words([0xffff_ffff, 1, 0x8000_0000, 0x8000_0000, 0xdead_beef, 0x2152_4111, 0, 0x1234_5678]);
    assert_eq!(sum_words(&w, 7), 0);
    write_signature(&mut w);
    assert_eq!(word(&w, 28), 0);
    assert_eq!(&w[28..32], &[0, 0, 0, 0]);
}

#[test]
fn words_one_to_seven_sign_to_e4() {
    let mut w = vec![1, 0, 0, 0, 2, 0, 0, 0, 3, 0, 0, 0, 4, 0, 0, 0, 5, 0, 0, 0, 6, 0, 0, 0, 7, 0, 0, 0, 0, 0, 0, 0];
    write_signature(&mut w);
    assert_eq!(&w[28..32], &[0xE4, 0xFF, 0xFF, 0xFF]);
    assert_eq!(word(&w, 28), 0xFFFF_FFE4);
}

#[test]
fn longer_window_keeps_trailing_bytes() {
    let mut w = window_of_words([1, 2, 3, 4, 5, 6, 7, 0]);
    w.extend_from_slice(&[9, 8, 7]);
    write_signature(&mut w);
    assert_eq!(&w[28..35], &[0xE4, 0xFF, 0xFF, 0xFF, 9, 8, 7]);
}

#[test]
fn sign_at_touches_only_its_slot() {
    let mut d = vec![0x55u8; 3];
    d.extend(window_of_words([1, 2, 3, 4, 5, 6, 7, 0]));
    d.extend_from_slice(&[0x66; 4]);
    let before = d.clone();
    sign_at(&mut d, 3);
    assert_eq!(&d[..31], &before[..31]);
    assert_eq!(&d[31..35], &[0xE4, 0xFF, 0xFF, 0xFF]);
    assert_eq!(&d[35..], &before[35..]);
}

#[test]
fn read_le_u32_is_little_endian() {
    let d = [0x00, 0x78, 0x56, 0x34, 0x12];
    assert_eq!(read_le_u32(&d, 1), 0x1234_5678);
    assert_eq!(read_le_u32(&d, 0), 0x3456_7800);
}
