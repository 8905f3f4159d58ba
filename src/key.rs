use vstd::prelude::*;
use vstd::string::*;

use crate::error::CipherError;
use crate::format::KEY_LEN;

verus! {

/// The value of one hexadecimal digit, either case, or `None` for any other character.
pub open spec fn hex_value(c: char) -> Option<u8> {
    if '0' <= c && c <= '9' {
        Some((c as u32 - '0' as u32) as u8)
    } else if 'a' <= c && c <= 'f' {
        Some((c as u32 - 'a' as u32 + 10) as u8)
    } else if 'A' <= c && c <= 'F' {
        Some((c as u32 - 'A' as u32 + 10) as u8)
    } else {
        None
    }
}

/// The lowercase hexadecimal digits, by value.
pub open spec fn hex_alphabet() -> Seq<char> {
    seq!['0', '1', '2', '3', '4', '5', '6', '7', '8', '9', 'a', 'b', 'c', 'd', 'e', 'f']
}

/// Text that spells a key: exactly two hexadecimal digits per key byte.
pub open spec fn is_key_text(s: Seq<char>) -> bool {
    &&& s.len() == 2 * KEY_LEN
    &&& forall|i: int| 0 <= i < s.len() ==> (#[trigger] hex_value(s[i])).is_some()
}

/// The bytes that hexadecimal text spells, high digit first.
pub open spec fn decode_hex(s: Seq<char>) -> Seq<u8> {
    Seq::new(
        s.len() / 2,
        |i: int| (hex_value(s[2 * i]).unwrap() * 16 + hex_value(s[2 * i + 1]).unwrap()) as u8,
    )
}

/// Lowercase hexadecimal text of bytes, two digits per byte, high digit first.
pub open spec fn encode_hex(b: Seq<u8>) -> Seq<char> {
    Seq::new(
        2 * b.len(),
        |i: int|
            if i % 2 == 0 {
                hex_alphabet()[(b[i / 2] / 16) as int]
            } else {
                hex_alphabet()[(b[i / 2] % 16) as int]
            },
    )
}

/// A cipher key: exactly `KEY_LEN` bytes.
#[derive(Debug, Clone, Copy, PartialEq, Eq)]
pub struct Key {
    pub bytes: [u8; KEY_LEN],
}

impl View for Key {
    type V = Seq<u8>;

    open spec fn view(&self) -> Seq<u8> {
        self.bytes@
    }
}

fn hex_value_of(c: char) -> (r: Option<u8>)
    ensures
        r == hex_value(c),
{
    if '0' <= c && c <= '9' {
        Some((c as u32 - '0' as u32) as u8)
    } else if 'a' <= c && c <= 'f' {
        Some((c as u32 - 'a' as u32 + 10) as u8)
    } else if 'A' <= c && c <= 'F' {
        Some((c as u32 - 'A' as u32 + 10) as u8)
    } else {
        None
    }
}

fn digit_text(d: u8) -> (r: &'static str)
    requires
        d < 16,
    ensures
        r@ == seq![hex_alphabet()[d as int]],
{
    proof {
        reveal_strlit("0");
        reveal_strlit("1");
        reveal_strlit("2");
        reveal_strlit("3");
        reveal_strlit("4");
        reveal_strlit("5");
        reveal_strlit("6");
        reveal_strlit("7");
        reveal_strlit("8");
        reveal_strlit("9");
        reveal_strlit("a");
        reveal_strlit("b");
        reveal_strlit("c");
        reveal_strlit("d");
        reveal_strlit("e");
        reveal_strlit("f");
    }
    let r = match d {
        0 => "0",
        1 => "1",
        2 => "2",
        3 => "3",
        4 => "4",
        5 => "5",
        6 => "6",
        7 => "7",
        8 => "8",
        9 => "9",
        10 => "a",
        11 => "b",
        12 => "c",
        13 => "d",
        14 => "e",
        _ => "f",
    };
    assert(r@ =~= seq![hex_alphabet()[d as int]]);
    r
}

impl Key {
    /// The key that holds the given bytes.
    pub fn new(bytes: [u8; KEY_LEN]) -> (k: Key)
        ensures
            k@ == bytes@,
    {
        Key { bytes }
    }

    /// The all-zero key, where key bytes are not determined by anything else.
    pub fn zeroed() -> (k: Key)
        ensures
            k@ == Seq::new(KEY_LEN as nat, |i: int| 0u8),
    {
        let k = Key { bytes: [0u8; KEY_LEN] };
        assert(k@ =~= Seq::new(KEY_LEN as nat, |i: int| 0u8));
        k
    }

    /// Parses a key from hexadecimal text of exactly `2 * KEY_LEN` digits, either case.
    pub fn set_from_hex(text: &str) -> (r: Result<Key, CipherError>)
        ensures
            match r {
                Ok(k) => is_key_text(text@) && k@ == decode_hex(text@),
                Err(e) => !is_key_text(text@) && e == CipherError::InvalidKeyFormat,
            },
    {
        let n = text.unicode_len();
        if n != 2 * KEY_LEN {
            return Err(CipherError::InvalidKeyFormat);
        }
        let mut bytes = [0u8; KEY_LEN];
        let mut i: usize = 0;
        while i < KEY_LEN
            invariant
                n == text@.len(),
                n == 2 * KEY_LEN,
                0 <= i <= KEY_LEN,
                forall|j: int| 0 <= j < 2 * i ==> (#[trigger] hex_value(text@[j])).is_some(),
                forall|j: int| 0 <= j < i ==> bytes@[j] == decode_hex(text@)[j],
            decreases KEY_LEN - i,
        {
            let hi = hex_value_of(text.get_char(2 * i));
            let lo = hex_value_of(text.get_char(2 * i + 1));
            match (hi, lo) {
                (Some(h), Some(l)) => {
                    bytes[i] = h * 16 + l;
                },
                _ => {
                    return Err(CipherError::InvalidKeyFormat);
                },
            }
            i += 1;
        }
        let k = Key { bytes };
        assert(k@ =~= decode_hex(text@));
        Ok(k)
    }

    /// Takes a key from raw bytes, which must be exactly `KEY_LEN` of them.
    pub fn set_from_bytes(bytes: &[u8]) -> (r: Result<Key, CipherError>)
        ensures
            match r {
                Ok(k) => bytes@.len() == KEY_LEN && k@ == bytes@,
                Err(e) => bytes@.len() != KEY_LEN && e == CipherError::InvalidKeyFormat,
            },
    {
        if bytes.len() != KEY_LEN {
            return Err(CipherError::InvalidKeyFormat);
        }
        let mut out = [0u8; KEY_LEN];
        let mut i: usize = 0;
        while i < KEY_LEN
            invariant
                bytes@.len() == KEY_LEN,
                0 <= i <= KEY_LEN,
                forall|j: int| 0 <= j < i ==> out@[j] == bytes@[j],
            decreases KEY_LEN - i,
        {
            out[i] = bytes[i];
            i += 1;
        }
        let k = Key { bytes: out };
        assert(k@ =~= bytes@);
        Ok(k)
    }

    /// The key as lowercase hexadecimal text.
    pub fn to_hex(&self) -> (r: String)
        ensures
            r@ == encode_hex(self@),
    {
        let mut r = String::new();
        let mut i: usize = 0;
        while i < KEY_LEN
            invariant
                0 <= i <= KEY_LEN,
                r@ =~= encode_hex(self@).subrange(0, 2 * i as int),
            decreases KEY_LEN - i,
        {
            let b = self.bytes[i];
            r.append(digit_text(b / 16));
            r.append(digit_text(b % 16));
            i += 1;
        }
        r
    }

    /// The key's bytes.
    pub fn as_bytes(&self) -> (r: &[u8; KEY_LEN])
        ensures
            r@ == self@,
    {
        &self.bytes
    }
}

/// Writing a key as text and reading it back gives the same key.
pub proof fn lemma_hex_round_trip(k: Key)
    ensures
        is_key_text(encode_hex(k@)),
        decode_hex(encode_hex(k@)) == k@,
{
    let s = encode_hex(k@);
    assert forall|i: int| 0 <= i < s.len() implies (#[trigger] hex_value(s[i])).is_some() by {
        let b = k@[i / 2];
        assert(b / 16 < 16 && b % 16 < 16);
    }
    assert forall|i: int| 0 <= i < KEY_LEN implies decode_hex(s)[i] == k@[i] by {
        let b = k@[i];
        assert((2 * i) / 2 == i && (2 * i + 1) / 2 == i);
        assert(hex_value(hex_alphabet()[(b / 16) as int]) == Some(b / 16));
        assert(hex_value(hex_alphabet()[(b % 16) as int]) == Some(b % 16));
    }
    assert(decode_hex(s) =~= k@);
}

} // verus!
