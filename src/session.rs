use vstd::prelude::*;

use crate::codec::{decrypt, decrypted, encrypt, encrypted, has_magic};
use crate::error::CipherError;
use crate::format::{Engine, FileKind};
use crate::key::{decode_hex, is_key_text, Key};
use crate::naming::{
    kind_of_obfuscated_ext, kind_of_obfuscated_extension, kind_of_plain_ext,
    kind_of_plain_extension, obfuscated_ext, obfuscated_extension, plain_ext, plain_extension,
    same_text,
};
use crate::recover::{derive_from_obfuscated, recovered_key};
use crate::signature::{has_signature, validate_signature};

verus! {

/// What a run does.
#[derive(Debug, Clone, Copy, PartialEq, Eq, Structural)]
pub enum Command {
    Encrypt,
    Decrypt,
    ExtractKey,
}

/// Which way a file is transformed.
#[derive(Debug, Clone, Copy, PartialEq, Eq, Structural)]
pub enum Direction {
    Encrypt,
    Decrypt,
}

/// Why the options of a run are refused.
#[derive(Debug, Clone, Copy, PartialEq, Eq, Structural)]
pub enum SetupError {
    /// The path given as the single file is not a file.
    FileNotAFile,
    /// Key extraction needs a single file and none was given.
    FileNotSpecified,
    /// The key text does not spell a key.
    InvalidKey,
    /// Encryption needs a key and none was given.
    KeyNotSpecified,
    /// Encryption needs an engine variant and none was given.
    EngineNotSpecified,
}

/// Why a single file was not transformed.
#[derive(Debug, Clone, Copy, PartialEq, Eq, Structural)]
pub enum FileError {
    /// The extension is not one that the direction handles.
    UnsupportedExtension,
    /// Encryption was asked for without a key.
    KeyNotSpecified,
    /// The cipher refused the content.
    Cipher(CipherError),
}

/// The validated options of a run. The key, once set, is used for every file.
#[derive(Debug, Clone, Copy)]
pub struct Settings {
    pub command: Command,
    pub engine: Engine,
    pub key: Option<Key>,
}

/// The view of an optional key.
pub open spec fn key_option_view(key: Option<Key>) -> Option<Seq<u8>> {
    match key {
        Some(k) => Some(k@),
        None => None,
    }
}

/// The view of an optional text.
pub open spec fn text_view(text: Option<&str>) -> Option<Seq<char>> {
    match text {
        Some(s) => Some(s@),
        None => None,
    }
}

/// The outcome of checking a run's options, in the order they are checked: the single file
/// (`file` holds whether its path is a file), the key text, then what encryption needs.
/// On success: the engine variant (MV where none is given) and the key, if one was given.
pub open spec fn setup_outcome(
    command: Command,
    file: Option<bool>,
    key_text: Option<Seq<char>>,
    engine: Option<Engine>,
) -> Result<(Engine, Option<Seq<u8>>), SetupError> {
    if file == Some(false) {
        Err(SetupError::FileNotAFile)
    } else if file is None && command == Command::ExtractKey {
        Err(SetupError::FileNotSpecified)
    } else if key_text matches Some(t) && !is_key_text(t) {
        Err(SetupError::InvalidKey)
    } else if key_text is None && command == Command::Encrypt {
        Err(SetupError::KeyNotSpecified)
    } else if engine is None && command == Command::Encrypt {
        Err(SetupError::EngineNotSpecified)
    } else {
        Ok(
            (
                match engine {
                    Some(e) => e,
                    None => Engine::MV,
                },
                match key_text {
                    Some(t) => Some(decode_hex(t)),
                    None => None,
                },
            ),
        )
    }
}

/// Checks the options of a run. `file` is `Some(is_file)` when a single file was named.
pub fn setup(command: Command, file: Option<bool>, key_text: Option<&str>, engine: Option<Engine>) -> (r:
    Result<Settings, SetupError>)
    ensures
        match r {
            Ok(s) => setup_outcome(command, file, text_view(key_text), engine) == Ok::<
                (Engine, Option<Seq<u8>>),
                SetupError,
            >((s.engine, key_option_view(s.key))) && s.command == command,
            Err(e) => setup_outcome(command, file, text_view(key_text), engine) == Err::<
                (Engine, Option<Seq<u8>>),
                SetupError,
            >(e),
        },
{
    if file == Some(false) {
        return Err(SetupError::FileNotAFile);
    }
    if file.is_none() && command == Command::ExtractKey {
        return Err(SetupError::FileNotSpecified);
    }
    let key = match key_text {
        Some(t) => match Key::set_from_hex(t) {
            Ok(k) => Some(k),
            Err(_) => {
                return Err(SetupError::InvalidKey);
            },
        },
        None => None,
    };
    if key.is_none() && command == Command::Encrypt {
        return Err(SetupError::KeyNotSpecified);
    }
    let engine = match engine {
        Some(e) => e,
        None => {
            if command == Command::Encrypt {
                return Err(SetupError::EngineNotSpecified);
            }
            Engine::MV
        },
    };
    Ok(Settings { command, engine, key })
}

/// The outcome of transforming one file: its new content and its new extension.
/// Decryption uses the given key, or else the key recovered from the file itself, and then
/// checks the signature of the kind that the extension names.
pub open spec fn file_outcome(
    direction: Direction,
    engine: Engine,
    key: Option<Seq<u8>>,
    ext: Seq<char>,
    data: Seq<u8>,
) -> Result<(Seq<u8>, Seq<char>), FileError> {
    match direction {
        Direction::Decrypt => match kind_of_obfuscated_ext(ext) {
            None => Err(FileError::UnsupportedExtension),
            Some(kind) => if !has_magic(data) {
                Err(FileError::Cipher(CipherError::MalformedHeader))
            } else {
                let k = match key {
                    Some(k) => k,
                    None => recovered_key(data, kind),
                };
                let p = decrypted(data, k);
                if has_signature(p, kind) {
                    Ok((p, plain_ext(kind)))
                } else {
                    Err(FileError::Cipher(CipherError::InvalidSignature { expected: kind }))
                }
            },
        },
        Direction::Encrypt => match kind_of_plain_ext(ext) {
            None => Err(FileError::UnsupportedExtension),
            Some(kind) => match key {
                None => Err(FileError::KeyNotSpecified),
                Some(k) => Ok((encrypted(data, k), obfuscated_ext(kind, engine))),
            },
        },
    }
}

/// Transforms the content of one file named with extension `ext`.
pub fn transform_file(
    direction: Direction,
    engine: Engine,
    key: Option<Key>,
    ext: &str,
    data: &[u8],
) -> (r: Result<(Vec<u8>, &'static str), FileError>)
    ensures
        match r {
            Ok((out, new_ext)) => file_outcome(direction, engine, key_option_view(key), ext@, data@)
                == Ok::<(Seq<u8>, Seq<char>), FileError>((out@, new_ext@)),
            Err(e) => file_outcome(direction, engine, key_option_view(key), ext@, data@) == Err::<
                (Seq<u8>, Seq<char>),
                FileError,
            >(e),
        },
{
    match direction {
        Direction::Decrypt => {
            let kind = match kind_of_obfuscated_extension(ext) {
                Some(kind) => kind,
                None => {
                    return Err(FileError::UnsupportedExtension);
                },
            };
            let k = match key {
                Some(k) => k,
                None => match derive_from_obfuscated(data, kind) {
                    Ok(k) => k,
                    Err(e) => {
                        return Err(FileError::Cipher(e));
                    },
                },
            };
            let plain = match decrypt(data, &k) {
                Ok(p) => p,
                Err(e) => {
                    return Err(FileError::Cipher(e));
                },
            };
            match validate_signature(plain.as_slice(), kind) {
                Ok(()) => Ok((plain, plain_extension(kind))),
                Err(e) => Err(FileError::Cipher(e)),
            }
        },
        Direction::Encrypt => {
            let kind = match kind_of_plain_extension(ext) {
                Some(kind) => kind,
                None => {
                    return Err(FileError::UnsupportedExtension);
                },
            };
            match key {
                None => Err(FileError::KeyNotSpecified),
                Some(k) => Ok((encrypt(data, &k), obfuscated_extension(kind, engine))),
            }
        },
    }
}

/// Whether a run handles files with the extension: plain ones when encrypting, obfuscated ones
/// when decrypting, none when extracting a key.
pub fn is_handled_extension(command: Command, ext: &str) -> (r: bool)
    ensures
        r == match command {
            Command::Encrypt => kind_of_plain_ext(ext@) is Some,
            Command::Decrypt => kind_of_obfuscated_ext(ext@) is Some,
            Command::ExtractKey => false,
        },
{
    match command {
        Command::Encrypt => kind_of_plain_extension(ext).is_some(),
        Command::Decrypt => kind_of_obfuscated_extension(ext).is_some(),
        Command::ExtractKey => false,
    }
}

/// Where a key can be read from.
#[derive(Debug, Clone, Copy, PartialEq, Eq, Structural)]
pub enum KeySource {
    /// The configuration file, which holds the key as text.
    Config,
    /// An obfuscated asset of the kind.
    Sample(FileKind),
    /// Neither.
    Unsupported,
}

/// The name of the configuration file that holds the key.
pub open spec fn config_file_name() -> Seq<char> {
    seq!['S', 'y', 's', 't', 'e', 'm', '.', 'j', 's', 'o', 'n']
}

/// Where the key of a file is read from, by its name and extension.
pub open spec fn key_source_of(file_name: Seq<char>, ext: Option<Seq<char>>) -> KeySource {
    if file_name == config_file_name() {
        KeySource::Config
    } else {
        match ext {
            Some(e) => match kind_of_obfuscated_ext(e) {
                Some(kind) => KeySource::Sample(kind),
                None => KeySource::Unsupported,
            },
            None => KeySource::Unsupported,
        }
    }
}

/// Decides where the key of a file is read from: the configuration file by its name, an
/// obfuscated asset by its extension.
pub fn key_source(file_name: &str, ext: Option<&str>) -> (r: KeySource)
    ensures
        r == key_source_of(file_name@, text_view(ext)),
{
    let config = "System.json";
    proof {
        reveal_strlit("System.json");
    }
    assert(config@ =~= config_file_name());
    if same_text(file_name, config) {
        return KeySource::Config;
    }
    match ext {
        Some(e) => match kind_of_obfuscated_extension(e) {
            Some(kind) => KeySource::Sample(kind),
            None => KeySource::Unsupported,
        },
        None => KeySource::Unsupported,
    }
}

} // verus!
