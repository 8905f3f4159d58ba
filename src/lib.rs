//! Converts game-engine media assets between their plain form and the obfuscated form that
//! prefixes a magic header and masks the leading bytes with a key, and recovers keys from
//! obfuscated samples or from the engine's configuration text.
pub mod codec;
pub mod config;
pub mod error;
pub mod format;
pub mod key;
pub mod naming;
pub mod recover;
pub mod session;
pub mod signature;

pub use codec::{decrypt, encrypt, starts_with_magic};
pub use config::{derive_from_field_value, derive_from_text_field, derive_key_from_config_text};
pub use error::CipherError;
pub use format::{magic_header_bytes, Engine, FileKind, KEY_LEN, MAGIC_LEN, MASK_LEN};
pub use key::Key;
pub use recover::derive_from_obfuscated;
pub use session::{
    is_handled_extension, key_source, setup, transform_file, Command, Direction, FileError,
    KeySource, SetupError, Settings,
};
pub use signature::{signature_bytes, validate_signature};
