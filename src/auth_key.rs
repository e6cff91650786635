//! The authentication key and its fixed-width text form.
use vstd::prelude::*;
use vstd::string::StringSliceAdditionalSpecFns;
use vstd::utf8::is_ascii_chars;

verus! {

broadcast use vstd::string::group_string_axioms;

/// Length of the raw key in bytes.
pub const AUTH_KEY_LEN: usize = 64;

/// Length of the key's base64 text form.
pub const ENCODED_KEY_LEN: usize = 88;

/// The client's authentication key: a fixed number of random bytes.
pub struct AuthKey {
    pub bytes: Vec<u8>,
}

impl AuthKey {
    pub open spec fn wf(&self) -> bool {
        self.bytes@.len() == AUTH_KEY_LEN
    }
}

#[verifier::external_type_specification]
#[verifier::external_body]
pub struct ExDecodeError(base64::DecodeError);

/// The standard, padded base64 text of `b`.
pub uninterp spec fn base64_standard(b: Seq<u8>) -> Seq<char>;

/// The bytes that the standard base64 text `s` stands for, if it is valid.
pub uninterp spec fn base64_standard_decoded(s: Seq<char>) -> Option<Seq<u8>>;

/// Characters that may occur in standard, padded base64 text.
pub open spec fn is_base64_char(c: char) -> bool {
    ('A' <= c <= 'Z') || ('a' <= c <= 'z') || ('0' <= c <= '9') || c == '+' || c == '/' || c == '='
}

/// Relies on base64::encode_config with base64::STANDARD: the output has
/// 4 * ceil(n / 3) characters of the standard alphabet and padding, and
/// base64::decode_config with the same configuration turns it back into `b`.
#[verifier::external_body]
fn encode_standard(b: &[u8]) -> (r: String)
    requires
        b@.len() <= usize::MAX / 2,
    ensures
        r@ == base64_standard(b@),
        r@.len() == 4 * ((b@.len() + 2) / 3),
        is_ascii_chars(r@),
        base64_standard_decoded(r@) == Some(b@),
{
    base64::encode_config(b, base64::STANDARD)
}

/// Relies on base64::decode_config with base64::STANDARD: it fails on any
/// byte outside the standard alphabet and padding.
#[verifier::external_body]
fn decode_standard(s: &str) -> (r: Result<Vec<u8>, base64::DecodeError>)
    ensures
        match r {
            Ok(v) => base64_standard_decoded(s@) == Some(v@),
            Err(_) => base64_standard_decoded(s@) is None,
        },
        (exists|i: int| 0 <= i < s@.len() && !is_base64_char(#[trigger] s@[i])) ==> r is Err,
{
    base64::decode_config(s, base64::STANDARD)
}

/// The raw key that the stored text `s` holds: present only for text of the
/// encoded length that decodes to a key of the raw length.
pub open spec fn decoded_key(s: Seq<char>) -> Option<Seq<u8>> {
    if s.len() == ENCODED_KEY_LEN && is_ascii_chars(s) {
        match base64_standard_decoded(s) {
            Some(b) => if b.len() == AUTH_KEY_LEN {
                Some(b)
            } else {
                None
            },
            None => None,
        }
    } else {
        None
    }
}

/// Encodes the key to its fixed-width text form.
pub fn encode_key(key: &AuthKey) -> (r: String)
    requires
        key.wf(),
    ensures
        r@ == base64_standard(key.bytes@),
        r@.len() == ENCODED_KEY_LEN,
        decoded_key(r@) == Some(key.bytes@),
{
    encode_standard(key.bytes.as_slice())
}

/// Decodes a stored key; text of another length or that is not valid base64
/// gives `None`.
pub fn decode_key(s: &str) -> (r: Option<AuthKey>)
    ensures
        match r {
            Some(k) => k.wf() && decoded_key(s@) == Some(k.bytes@),
            None => decoded_key(s@) is None,
        },
        s@.len() != ENCODED_KEY_LEN ==> r is None,
        (exists|i: int| 0 <= i < s@.len() && !is_base64_char(#[trigger] s@[i])) ==> r is None,
{
    if !s.is_ascii() || s.as_bytes().len() != ENCODED_KEY_LEN {
        return None;
    }
    proof {
        vstd::string::is_ascii_spec_bytes(s);
        assert(s@.len() == s.spec_bytes().len());
    }
    match decode_standard(s) {
        Ok(v) => {
            if v.len() == AUTH_KEY_LEN {
                Some(AuthKey { bytes: v })
            } else {
                None
            }
        },
        Err(_) => None,
    }
}

/// The raw key in use after start-up: the stored one where it decodes, else
/// the freshly generated `fresh`.
pub open spec fn loaded_key(stored: Option<Seq<char>>, fresh: Seq<u8>) -> Seq<u8> {
    match stored {
        Some(s) => match decoded_key(s) {
            Some(b) => b,
            None => fresh,
        },
        None => fresh,
    }
}

/// A key ready for use, and the text to persist when it was newly made.
pub struct LoadedKey {
    pub key: AuthKey,
    pub to_persist: Option<String>,
}

/// Reads the stored key text, or adopts the freshly generated bytes `fresh`
/// where nothing usable is stored; a new key comes with its text to persist.
pub fn load_or_create(stored: Option<&str>, fresh: AuthKey) -> (r: LoadedKey)
    requires
        fresh.wf(),
    ensures
        r.key.wf(),
        r.key.bytes@ == loaded_key(
            match stored {
                Some(s) => Some(s@),
                None => None,
            },
            fresh.bytes@,
        ),
        match r.to_persist {
            Some(t) => t@ == base64_standard(fresh.bytes@) && r.key.bytes@ == fresh.bytes@
                && decoded_key(t@) == Some(fresh.bytes@),
            None => stored is Some && decoded_key(stored->Some_0@) is Some,
        },
{
    let decoded = match stored {
        Some(s) => decode_key(s),
        None => None,
    };
    match decoded {
        Some(key) => LoadedKey { key, to_persist: None },
        None => {
            let text = encode_key(&fresh);
            LoadedKey { key: fresh, to_persist: Some(text) }
        },
    }
}

} // verus!
