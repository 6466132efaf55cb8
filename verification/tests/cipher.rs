use lobby::brokefish::{next_u32_wrap, Brokefish};
use lobby::client::{decrypt_payload, encrypt_payload};
use lobby::keys::{base_key, derive_key, key_from_payload, KeyLayout};

const ZERO_KEY: [u8; 16] = [46, 11, 136, 101, 73, 159, 137, 136, 225, 242, 33, 189, 20, 13, 41, 141];

#[test]
fn block_matches_blowfish_for_ascii_keys() {
    let bf = Brokefish::new(b"abcdefghijklmnopqrstuvwxyz");
    assert_eq!(bf.encrypt_block([0x424c4f57, 0x46495348]), [0x324ed0fe, 0xf413a203]);
    assert_eq!(bf.decrypt_block([0x324ed0fe, 0xf413a203]), [0x424c4f57, 0x46495348]);
    let bf = Brokefish::new(b"Who is John Galt?");
    assert_eq!(bf.encrypt_block([0xfedcba98, 0x76543210]), [0xcc91732b, 0x8022f684]);
}

#[test]
fn key_bytes_are_sign_extended() {
    let bf = Brokefish::new(&[0x80, 0xff, 0x01, 0x7f, 0xc3]);
    assert_eq!(bf.encrypt_block([0x01234567, 0x89abcdef]), [0xdf6db11b, 0x25cd478c]);
    assert_eq!(bf.decrypt_block([0xdf6db11b, 0x25cd478c]), [0x01234567, 0x89abcdef]);
}

#[test]
fn next_word_sign_extends_and_wraps() {
    let mut offset = 0usize;
    assert_eq!(next_u32_wrap(&[0x01, 0x02, 0x03, 0x04], &mut offset), 0x01020304);
    assert_eq!(offset, 4);
    assert_eq!(next_u32_wrap(&[0x01, 0x02, 0x03, 0x04], &mut offset), 0x01020304);
    assert_eq!(offset, 4);
    let mut offset = 0usize;
    assert_eq!(next_u32_wrap(&[0x01, 0x80], &mut offset), 0xffffff80);
    assert_eq!(offset, 2);
    let mut offset = 0usize;
    assert_eq!(next_u32_wrap(&[0x12, 0x34, 0x56], &mut offset), 0x12345612);
    assert_eq!(offset, 1);
    assert_eq!(next_u32_wrap(&[0x12, 0x34, 0x56], &mut offset), 0x34561234);
    assert_eq!(offset, 2);
    let mut offset = 0usize;
    assert_eq!(next_u32_wrap(&[0x80, 0x01, 0x02, 0x03], &mut offset), 0x80010203);
    let mut offset = 0usize;
    assert_eq!(next_u32_wrap(&[0x7f], &mut offset), 0x7f7f7f7f);
    assert_eq!(offset, 1);
}

#[test]
fn round_function_is_used_by_both_directions() {
    let bf = Brokefish::new(&ZERO_KEY);
    let x = bf.round_function(0);
    let y = bf.round_function(0x01020304);
    assert_ne!(x, y);
    assert_eq!(bf.round_function(0), x);
}

#[test]
fn same_key_gives_same_state() {
    let a = Brokefish::new(&ZERO_KEY);
    let b = Brokefish::new(&ZERO_KEY);
    assert!(a == b);
    let c = Brokefish::new(&[1, 2, 3]);
    assert!(a != c);
}

#[test]
fn expand_key_is_what_new_runs() {
    let a = Brokefish::new(b"abcdefghijklmnopqrstuvwxyz");
    let mut b = Brokefish::new(&[9]);
    b.expand_key(&[7, 7]);
    assert!(a != b);
    assert_eq!(b.decrypt_block(b.encrypt_block([1, 2])), [1, 2]);
}

#[test]
fn buffer_encryption_exact_bytes() {
    let bf = Brokefish::new(&ZERO_KEY);
    let plain: Vec<u8> = (0u8..20).collect();
    let sealed = bf.encrypt(&plain);
    assert_eq!(
        sealed,
        vec![83, 60, 189, 62, 85, 11, 216, 91, 170, 125, 61, 137, 163, 176, 251, 95, 16, 17, 18, 19]
    );
    assert_eq!(bf.decrypt(&sealed), plain);
    assert_eq!(
        bf.decrypt(&plain),
        vec![197, 145, 44, 103, 174, 240, 7, 80, 127, 208, 10, 208, 60, 116, 32, 38, 16, 17, 18, 19]
    );
}

#[test]
fn decrypt_undoes_encrypt_on_block_multiples() {
    let bf = Brokefish::new(&[0xfe, 0x10, 0x99, 0x00, 0x42, 0x80]);
    for blocks in 0usize..6 {
        let plain: Vec<u8> = (0..blocks * 8).map(|k| (k * 37 + 11) as u8).collect();
        let sealed = bf.encrypt(&plain);
        assert_eq!(sealed.len(), plain.len());
        if blocks > 0 {
            assert_ne!(sealed, plain);
        }
        assert_eq!(bf.decrypt(&sealed), plain);
    }
}

#[test]
fn short_rest_is_carried_through() {
    let bf = Brokefish::new(&ZERO_KEY);
    assert_eq!(bf.encrypt(&[]), Vec::<u8>::new());
    assert_eq!(bf.decrypt(&[1, 2, 3, 4, 5, 6, 7]), vec![1, 2, 3, 4, 5, 6, 7]);
    let out = bf.decrypt(&[0, 1, 2, 3, 4, 5, 6, 7, 8, 9, 10]);
    assert_eq!(out.len(), 11);
    assert_eq!(&out[..8], &[197, 145, 44, 103, 174, 240, 7, 80]);
    assert_eq!(&out[8..], &[8, 9, 10]);
}

#[test]
fn blocks_are_independent() {
    let bf = Brokefish::new(&ZERO_KEY);
    let one = bf.encrypt(&[0, 1, 2, 3, 4, 5, 6, 7]);
    let two = bf.encrypt(&[9, 9, 9, 9, 9, 9, 9, 9, 0, 1, 2, 3, 4, 5, 6, 7]);
    assert_eq!(&two[8..], &one[..]);
}

#[test]
fn payload_protection_leaves_reserved_tail() {
    let bf = Brokefish::new(&ZERO_KEY);
    let plain: Vec<u8> = (0u8..28).collect();
    let sealed = encrypt_payload(&bf, &plain);
    assert_eq!(&sealed[..20], &bf.encrypt(&plain[..20])[..]);
    assert_eq!(&sealed[20..], &plain[20..]);
    assert_eq!(decrypt_payload(&bf, &sealed), plain);
    assert_eq!(encrypt_payload(&bf, &[1, 2, 3]), vec![1, 2, 3]);
    assert_eq!(decrypt_payload(&bf, &[1, 2, 3, 4, 5, 6, 7, 8]), vec![1, 2, 3, 4, 5, 6, 7, 8]);
}

#[test]
fn base_key_layout() {
    let seed = [0xa1, 0xa2, 0xa3, 0xa4];
    let phrase: Vec<u8> = (100u8..132).collect();
    let buf = base_key(&seed, &phrase);
    assert_eq!(buf.len(), 44);
    assert_eq!(&buf[0..4], &[0x78, 0x56, 0x34, 0x12]);
    assert_eq!(&buf[4..8], &seed);
    assert_eq!(&buf[8..12], &[0xd4, 0x17, 0, 0]);
    assert_eq!(&buf[12..44], &phrase[..]);
}

#[test]
fn derived_key_literal_vectors() {
    assert_eq!(derive_key(&[0; 4], &[0; 32]), ZERO_KEY);
    assert_eq!(derive_key(&[0; 4], &[0; 32]), derive_key(&[0; 4], &[0; 32]));
    let phrase: Vec<u8> = (0u8..32).collect();
    assert_eq!(
        derive_key(&[1, 2, 3, 4], &phrase),
        [36, 14, 221, 24, 112, 159, 105, 97, 225, 45, 203, 122, 173, 122, 83, 254]
    );
}

#[test]
fn key_from_payload_reads_fixed_offsets() {
    let layout = KeyLayout { phrase_offset: 36, seed_offset: 100 };
    let mut payload = vec![0xeeu8; 104];
    for k in 0..32 {
        payload[36 + k] = k as u8;
    }
    payload[100..104].copy_from_slice(&[1, 2, 3, 4]);
    assert_eq!(
        key_from_payload(&payload, &layout),
        Some([36, 14, 221, 24, 112, 159, 105, 97, 225, 45, 203, 122, 173, 122, 83, 254])
    );
    assert_eq!(key_from_payload(&payload[..103], &layout), None);
    assert_eq!(key_from_payload(&[], &layout), None);
    let other = KeyLayout { phrase_offset: 10, seed_offset: 100 };
    assert!(key_from_payload(&payload, &other).is_some());
    assert_ne!(key_from_payload(&payload, &other), key_from_payload(&payload, &layout));
    let far = KeyLayout { phrase_offset: 36, seed_offset: usize::MAX };
    assert_eq!(key_from_payload(&payload, &far), None);
}
