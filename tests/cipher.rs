use asset_cipher::{
    decrypt, derive_from_obfuscated, encrypt, magic_header_bytes, starts_with_magic,
    validate_signature, CipherError, FileKind, Key, MAGIC_LEN,
};

const PNG_SIGNATURE: [u8; 8] = [0x89, 0x50, 0x4E, 0x47, 0x0D, 0x0A, 0x1A, 0x0A];

fn png_sample() -> Vec<u8> {
    let mut plain = PNG_SIGNATURE.to_vec();
    plain.extend(std::iter::repeat(0u8).take(24));
    plain
}

fn key_of(b: u8) -> Key {
    Key::new([b; 16])
}

fn counting_key() -> Key {
    let mut bytes = [0u8; 16];
    for (i, b) in bytes.iter_mut().enumerate() {
        *b = (i as u8) * 17 + 3;
    }
    Key::new(bytes)
}

#[test]
fn magic_header_is_rpgmv() {
    let magic = magic_header_bytes();
    assert_eq!(
        magic,
        vec![0x52, 0x50, 0x47, 0x4D, 0x56, 0, 0, 0, 0, 0x03, 0x01, 0, 0, 0, 0, 0]
    );
    assert_eq!(magic.len(), MAGIC_LEN);
}

#[test]
fn encrypt_png_sample_scenario() {
    let plain = png_sample();
    let key = key_of(0x11);
    let out = encrypt(&plain, &key);
    assert_eq!(out.len(), MAGIC_LEN + 32);
    let mut expected = magic_header_bytes();
    for b in PNG_SIGNATURE {
        expected.push(b ^ 0x11);
    }
    // the masked prefix covers sixteen bytes, so the eight zero bytes inside it take the key
    expected.extend([0x11u8; 8]);
    expected.extend([0u8; 16]);
    assert_eq!(out, expected);
    assert_eq!(decrypt(&out, &key), Ok(plain));
}

#[test]
fn recover_key_from_png_sample_scenario() {
    let key = key_of(0x11);
    let out = encrypt(&png_sample(), &key);
    let recovered = derive_from_obfuscated(&out, FileKind::Png).unwrap();
    assert_eq!(&recovered.as_bytes()[..8], &[0x11u8; 8]);
}

#[test]
fn recover_key_with_cyclic_signature() {
    let key = key_of(0x11);
    let out = encrypt(&png_sample(), &key);
    let recovered = derive_from_obfuscated(&out, FileKind::Png).unwrap();
    for i in 8..16 {
        assert_eq!(recovered.as_bytes()[i], 0x11 ^ PNG_SIGNATURE[i - 8]);
    }
}

#[test]
fn recover_key_from_short_sample_leaves_zeros() {
    let key = counting_key();
    let out = encrypt(&PNG_SIGNATURE, &key);
    assert_eq!(out.len(), MAGIC_LEN + 8);
    let recovered = derive_from_obfuscated(&out, FileKind::Png).unwrap();
    assert_eq!(&recovered.as_bytes()[..8], &key.as_bytes()[..8]);
    assert_eq!(&recovered.as_bytes()[8..], &[0u8; 8]);
}

#[test]
fn recover_key_from_ogg_and_m4a_samples() {
    let key = counting_key();
    let mut ogg = b"OggS".to_vec();
    ogg.extend([0u8; 28]);
    let r = derive_from_obfuscated(&encrypt(&ogg, &key), FileKind::Ogg).unwrap();
    assert_eq!(&r.as_bytes()[..4], &key.as_bytes()[..4]);

    let mut m4a = vec![0, 0, 0, 0x20];
    m4a.extend(b"ftypM4A ");
    m4a.extend([0u8; 20]);
    let r = derive_from_obfuscated(&encrypt(&m4a, &key), FileKind::M4a).unwrap();
    assert_eq!(&r.as_bytes()[4..12], &key.as_bytes()[4..12]);
}

#[test]
fn short_buffer_is_malformed_header() {
    let data = [0u8; 10];
    assert_eq!(decrypt(&data, &key_of(0x11)), Err(CipherError::MalformedHeader));
    assert_eq!(derive_from_obfuscated(&data, FileKind::Png), Err(CipherError::MalformedHeader));
}

#[test]
fn foreign_header_is_malformed_header() {
    let mut data = encrypt(&png_sample(), &key_of(0x11));
    data[3] ^= 0xFF;
    assert!(!starts_with_magic(&data));
    assert_eq!(decrypt(&data, &key_of(0x11)), Err(CipherError::MalformedHeader));
}

#[test]
fn round_trip_many_lengths() {
    let key = counting_key();
    for len in 0..40usize {
        let plain: Vec<u8> = (0..len).map(|i| (i * 7 + 1) as u8).collect();
        let out = encrypt(&plain, &key);
        assert_eq!(out.len(), MAGIC_LEN + len);
        assert!(starts_with_magic(&out));
        assert_eq!(decrypt(&out, &key), Ok(plain));
    }
}

#[test]
fn bare_magic_header_decrypts_to_empty() {
    assert_eq!(decrypt(&magic_header_bytes(), &key_of(0x42)), Ok(Vec::new()));
}

#[test]
fn bytes_past_mask_pass_through() {
    let plain: Vec<u8> = (0..20u8).collect();
    let out = encrypt(&plain, &key_of(0xFF));
    assert_eq!(&out[MAGIC_LEN + 16..], &plain[16..]);
    assert_eq!(out[MAGIC_LEN], 0xFF);
}

#[test]
fn wrong_key_is_detected() {
    let out = encrypt(&png_sample(), &key_of(0x11));
    let plain = decrypt(&out, &key_of(0x22)).unwrap();
    assert_eq!(
        validate_signature(&plain, FileKind::Png),
        Err(CipherError::InvalidSignature { expected: FileKind::Png })
    );
    let plain = decrypt(&out, &key_of(0x11)).unwrap();
    assert_eq!(validate_signature(&plain, FileKind::Png), Ok(()));
}

#[test]
fn wrong_key_agreeing_on_signature_bytes_passes() {
    let k1 = key_of(0x11);
    let mut other = [0x11u8; 16];
    other[12] = 0x99;
    let out = encrypt(&png_sample(), &k1);
    let plain = decrypt(&out, &Key::new(other)).unwrap();
    assert_eq!(validate_signature(&plain, FileKind::Png), Ok(()));
}

#[test]
fn signatures_of_each_kind() {
    assert_eq!(validate_signature(&PNG_SIGNATURE, FileKind::Png), Ok(()));
    assert_eq!(validate_signature(b"OggS", FileKind::Ogg), Ok(()));
    assert_eq!(
        validate_signature(b"Ogg", FileKind::Ogg),
        Err(CipherError::InvalidSignature { expected: FileKind::Ogg })
    );
    assert_eq!(validate_signature(b"\0\0\0\x1cftypM4A \0\0", FileKind::M4a), Ok(()));
    assert_eq!(
        validate_signature(b"\0\0\0\x1cftypisom", FileKind::M4a),
        Err(CipherError::InvalidSignature { expected: FileKind::M4a })
    );
    assert_eq!(
        validate_signature(b"\0\0\0\x1cftypM4A", FileKind::M4a),
        Err(CipherError::InvalidSignature { expected: FileKind::M4a })
    );
    assert_eq!(
        validate_signature(b"OggS", FileKind::Png),
        Err(CipherError::InvalidSignature { expected: FileKind::Png })
    );
}
