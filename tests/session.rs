use asset_cipher::{
    encrypt, is_handled_extension, key_source, setup, transform_file, CipherError, Command,
    Direction, Engine, FileError, FileKind, Key, KeySource, SetupError, MAGIC_LEN,
};

const KEY_TEXT: &str = "00112233445566778899aabbccddeeff";

fn png_sample() -> Vec<u8> {
    let mut plain = vec![0x89, 0x50, 0x4E, 0x47, 0x0D, 0x0A, 0x1A, 0x0A];
    plain.extend([0u8; 24]);
    plain
}

#[test]
fn setup_checks_in_order() {
    assert_eq!(
        setup(Command::Decrypt, Some(false), Some("bad"), None).unwrap_err(),
        SetupError::FileNotAFile
    );
    assert_eq!(
        setup(Command::ExtractKey, None, None, None).unwrap_err(),
        SetupError::FileNotSpecified
    );
    assert_eq!(
        setup(Command::Encrypt, None, Some("bad"), None).unwrap_err(),
        SetupError::InvalidKey
    );
    assert_eq!(
        setup(Command::Encrypt, None, None, Some(Engine::MZ)).unwrap_err(),
        SetupError::KeyNotSpecified
    );
    assert_eq!(
        setup(Command::Encrypt, None, Some(KEY_TEXT), None).unwrap_err(),
        SetupError::EngineNotSpecified
    );
}

#[test]
fn setup_success() {
    let s = setup(Command::Encrypt, None, Some(KEY_TEXT), Some(Engine::MZ)).unwrap();
    assert_eq!(s.command, Command::Encrypt);
    assert!(matches!(s.engine, Engine::MZ));
    assert_eq!(s.key, Some(Key::set_from_hex(KEY_TEXT).unwrap()));

    let s = setup(Command::Decrypt, None, None, None).unwrap();
    assert!(matches!(s.engine, Engine::MV));
    assert_eq!(s.key, None);

    let s = setup(Command::ExtractKey, Some(true), None, None).unwrap();
    assert_eq!(s.command, Command::ExtractKey);
}

#[test]
fn encrypt_file_names_by_engine() {
    let key = Some(Key::set_from_hex(KEY_TEXT).unwrap());
    let (out, ext) =
        transform_file(Direction::Encrypt, Engine::MV, key, "png", &png_sample()).unwrap();
    assert_eq!(ext, "rpgmvp");
    assert_eq!(out, encrypt(&png_sample(), &key.unwrap()));
    let (_, ext) = transform_file(Direction::Encrypt, Engine::MZ, key, "ogg", b"OggS").unwrap();
    assert_eq!(ext, "ogg_");
    let (_, ext) = transform_file(Direction::Encrypt, Engine::MV, key, "m4a", b"").unwrap();
    assert_eq!(ext, "rpgmvm");
    let (_, ext) = transform_file(Direction::Encrypt, Engine::MZ, key, "m4a", b"").unwrap();
    assert_eq!(ext, "m4a_");
}

#[test]
fn encrypt_file_errors() {
    let key = Some(Key::zeroed());
    assert_eq!(
        transform_file(Direction::Encrypt, Engine::MV, key, "rpgmvp", b"").unwrap_err(),
        FileError::UnsupportedExtension
    );
    assert_eq!(
        transform_file(Direction::Encrypt, Engine::MV, None, "png", b"").unwrap_err(),
        FileError::KeyNotSpecified
    );
}

#[test]
fn decrypt_file_with_given_key() {
    let key = Key::set_from_hex(KEY_TEXT).unwrap();
    let data = encrypt(&png_sample(), &key);
    let (out, ext) =
        transform_file(Direction::Decrypt, Engine::MV, Some(key), "png_", &data).unwrap();
    assert_eq!(out, png_sample());
    assert_eq!(ext, "png");
    assert_eq!(
        transform_file(Direction::Decrypt, Engine::MV, Some(Key::zeroed()), "rpgmvp", &data)
            .unwrap_err(),
        FileError::Cipher(CipherError::InvalidSignature { expected: FileKind::Png })
    );
}

#[test]
fn decrypt_file_recovers_key() {
    let key = Key::set_from_hex(KEY_TEXT).unwrap();
    let mut ogg = b"OggS".to_vec();
    ogg.extend([7u8; 30]);
    let data = encrypt(&ogg, &key);
    let (out, ext) = transform_file(Direction::Decrypt, Engine::MV, None, "rpgmvo", &data).unwrap();
    assert_eq!(ext, "ogg");
    assert_eq!(out.len(), data.len() - MAGIC_LEN);
    assert_eq!(&out[..4], b"OggS");
    assert_eq!(&out[16..], &ogg[16..]);
}

#[test]
fn decrypt_file_errors() {
    assert_eq!(
        transform_file(Direction::Decrypt, Engine::MV, None, "png", b"").unwrap_err(),
        FileError::UnsupportedExtension
    );
    assert_eq!(
        transform_file(Direction::Decrypt, Engine::MV, None, "m4a_", &[0u8; 10]).unwrap_err(),
        FileError::Cipher(CipherError::MalformedHeader)
    );
}

#[test]
fn handled_extensions() {
    for ext in ["png", "ogg", "m4a"] {
        assert!(is_handled_extension(Command::Encrypt, ext));
        assert!(!is_handled_extension(Command::Decrypt, ext));
    }
    for ext in ["rpgmvp", "rpgmvo", "rpgmvm", "png_", "ogg_", "m4a_"] {
        assert!(is_handled_extension(Command::Decrypt, ext));
        assert!(!is_handled_extension(Command::Encrypt, ext));
    }
    assert!(!is_handled_extension(Command::Decrypt, "json"));
    assert!(!is_handled_extension(Command::ExtractKey, "png_"));
}

#[test]
fn key_sources() {
    assert_eq!(key_source("System.json", Some("json")), KeySource::Config);
    assert_eq!(key_source("a.rpgmvp", Some("rpgmvp")), KeySource::Sample(FileKind::Png));
    assert_eq!(key_source("a.m4a_", Some("m4a_")), KeySource::Sample(FileKind::M4a));
    assert_eq!(key_source("a.png", Some("png")), KeySource::Unsupported);
    assert_eq!(key_source("README", None), KeySource::Unsupported);
}
