use vstd::prelude::*;

use crate::error::CipherError;
use crate::key::{decode_hex, is_key_text, Key};

verus! {

/// The string value of the top-level field `field` of the JSON text `text`, or `None` when the
/// text is not JSON, is not an object, lacks the field, or holds something else than a string
/// there.
pub uninterp spec fn json_string_field(text: Seq<char>, field: Seq<char>) -> Option<Seq<char>>;

/// Relies on `serde_json::from_str` into `serde_json::Value`, `Value::get` with a `&str` index
/// and `Value::as_str`: together they yield the string held by a top-level field of an object,
/// and nothing for any other text. The result depends on the two strings alone.
#[verifier::external_body]
fn read_json_string_field(text: &str, field: &str) -> (r: Option<String>)
    ensures
        match r {
            Some(s) => json_string_field(text@, field@) == Some(s@),
            None => json_string_field(text@, field@) is None,
        },
{
    let value: serde_json::Value = serde_json::from_str(text).ok()?;
    value.get(field)?.as_str().map(String::from)
}

/// The name of the configuration field that holds the key.
pub open spec fn key_field_name() -> Seq<char> {
    seq!['e', 'n', 'c', 'r', 'y', 'p', 't', 'i', 'o', 'n', 'K', 'e', 'y']
}

/// A field value spells a key.
pub open spec fn is_key_field(value: Option<Seq<char>>) -> bool {
    value matches Some(s) && is_key_text(s)
}

/// The characters of an optional text.
pub open spec fn text_option_view(value: Option<&str>) -> Option<Seq<char>> {
    match value {
        Some(s) => Some(s@),
        None => None,
    }
}

/// Turns the value read from a configuration field into a key. A missing value, or one that
/// does not spell a key, is `KeyFieldNotFound`.
pub fn derive_from_field_value(value: Option<&str>) -> (r: Result<Key, CipherError>)
    ensures
        match r {
            Ok(k) => is_key_field(text_option_view(value)) && k@ == decode_hex(value.unwrap()@),
            Err(e) => !is_key_field(text_option_view(value)) && e == CipherError::KeyFieldNotFound,
        },
{
    match value {
        None => Err(CipherError::KeyFieldNotFound),
        Some(s) => match Key::set_from_hex(s) {
            Ok(k) => Ok(k),
            Err(_) => Err(CipherError::KeyFieldNotFound),
        },
    }
}

/// Reads the key stored as hexadecimal text in the top-level string field `field_name` of a
/// JSON configuration text.
pub fn derive_from_text_field(text: &str, field_name: &str) -> (r: Result<Key, CipherError>)
    ensures
        match r {
            Ok(k) => is_key_field(json_string_field(text@, field_name@)) && k@ == decode_hex(
                json_string_field(text@, field_name@).unwrap(),
            ),
            Err(e) => !is_key_field(json_string_field(text@, field_name@)) && e
                == CipherError::KeyFieldNotFound,
        },
{
    let found = read_json_string_field(text, field_name);
    match found {
        None => derive_from_field_value(None),
        Some(s) => derive_from_field_value(Some(s.as_str())),
    }
}

/// Reads the key from the `encryptionKey` field of a configuration text.
pub fn derive_key_from_config_text(text: &str) -> (r: Result<Key, CipherError>)
    ensures
        match r {
            Ok(k) => is_key_field(json_string_field(text@, key_field_name())) && k@ == decode_hex(
                json_string_field(text@, key_field_name()).unwrap(),
            ),
            Err(e) => !is_key_field(json_string_field(text@, key_field_name())) && e
                == CipherError::KeyFieldNotFound,
        },
{
    let field = "encryptionKey";
    proof {
        reveal_strlit("encryptionKey");
    }
    assert(field@ =~= key_field_name());
    derive_from_text_field(text, field)
}

} // verus!
