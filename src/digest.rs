use crate::errors::HWIDError;
use crate::text::is_lower_hex;
use hmac::digest::InvalidLength;
use hmac::{Hmac, Mac};
use md5::Md5;
use sha1::Sha1;
use sha2::Sha256;
use vstd::prelude::*;

verus! {

/// The keyed hash that turns the canonical string into the identifier.
#[derive(Clone, Copy, Debug, PartialEq, Eq, Structural)]
pub enum Encryption {
    MD5,
    SHA256,
    SHA1,
}

#[verifier::external_type_specification]
#[verifier::external_body]
pub struct ExInvalidLength(InvalidLength);

/// The HMAC-MD5 tag of `msg` (as UTF-8) under `key` (as UTF-8).
pub uninterp spec fn hmac_md5_of(key: Seq<char>, msg: Seq<char>) -> Seq<u8>;

/// The HMAC-SHA1 tag of `msg` (as UTF-8) under `key` (as UTF-8).
pub uninterp spec fn hmac_sha1_of(key: Seq<char>, msg: Seq<char>) -> Seq<u8>;

/// The HMAC-SHA256 tag of `msg` (as UTF-8) under `key` (as UTF-8).
pub uninterp spec fn hmac_sha256_of(key: Seq<char>, msg: Seq<char>) -> Seq<u8>;

/// The lowercase hexadecimal digit for `n < 16`.
pub open spec fn hex_digit(n: int) -> char {
    seq!['0', '1', '2', '3', '4', '5', '6', '7', '8', '9', 'a', 'b', 'c', 'd', 'e', 'f'][n]
}

/// Two lowercase hexadecimal digits per byte, high nibble first.
pub open spec fn hex_lower(b: Seq<u8>) -> Seq<char>
    decreases b.len(),
{
    if b.len() == 0 {
        Seq::empty()
    } else {
        seq![hex_digit(b[0] as int / 16), hex_digit(b[0] as int % 16)] + hex_lower(b.drop_first())
    }
}

/// The identifier that `alg` derives from `msg` under `key`: the hex-encoded HMAC tag.
pub open spec fn digest_of(alg: Encryption, key: Seq<char>, msg: Seq<char>) -> Seq<char> {
    match alg {
        Encryption::MD5 => hex_lower(hmac_md5_of(key, msg)),
        Encryption::SHA1 => hex_lower(hmac_sha1_of(key, msg)),
        Encryption::SHA256 => hex_lower(hmac_sha256_of(key, msg)),
    }
}

/// The number of hex digits in the identifier that `alg` gives: two per byte of the tag.
pub open spec fn hash_len(alg: Encryption) -> nat {
    match alg {
        Encryption::MD5 => 32,
        Encryption::SHA1 => 40,
        Encryption::SHA256 => 64,
    }
}

proof fn lemma_hex_digit(n: int)
    requires
        0 <= n < 16,
    ensures
        is_lower_hex(hex_digit(n)),
{
    let d = seq!['0', '1', '2', '3', '4', '5', '6', '7', '8', '9', 'a', 'b', 'c', 'd', 'e', 'f'];
    assert(forall|k: int| 0 <= k < 16 ==> is_lower_hex(#[trigger] d[k]));
}

/// Hex encoding gives two lowercase hex digits per byte.
pub proof fn lemma_hex_lower(b: Seq<u8>)
    ensures
        hex_lower(b).len() == 2 * b.len(),
        forall|i: int| 0 <= i < hex_lower(b).len() ==> is_lower_hex(#[trigger] hex_lower(b)[i]),
    decreases b.len(),
{
    if b.len() > 0 {
        lemma_hex_lower(b.drop_first());
        lemma_hex_digit(b[0] as int / 16);
        lemma_hex_digit(b[0] as int % 16);
        let h = seq![hex_digit(b[0] as int / 16), hex_digit(b[0] as int % 16)];
        let t = hex_lower(b.drop_first());
        assert(hex_lower(b) == h + t);
        assert forall|i: int| 0 <= i < hex_lower(b).len() implies is_lower_hex(
            #[trigger] hex_lower(b)[i],
        ) by {
            if i >= 2 {
                assert(hex_lower(b)[i] == t[i - 2]);
            }
        }
    }
}

/// Relies on hmac's `Hmac<Md5>`: `new_from_slice` accepts a key of any length, and the
/// tag of MD5 has 16 bytes.
#[verifier::external_body]
fn hmac_md5(key: &str, msg: &str) -> (r: Result<Vec<u8>, InvalidLength>)
    ensures
        r is Ok,
        r->Ok_0@ == hmac_md5_of(key@, msg@),
        r->Ok_0@.len() == 16,
{
    let mut mac = Hmac::<Md5>::new_from_slice(key.as_bytes())?;
    mac.update(msg.as_bytes());
    Ok(mac.finalize().into_bytes().to_vec())
}

/// Relies on hmac's `Hmac<Sha1>`: `new_from_slice` accepts a key of any length, and the
/// tag of SHA-1 has 20 bytes.
#[verifier::external_body]
fn hmac_sha1(key: &str, msg: &str) -> (r: Result<Vec<u8>, InvalidLength>)
    ensures
        r is Ok,
        r->Ok_0@ == hmac_sha1_of(key@, msg@),
        r->Ok_0@.len() == 20,
{
    let mut mac = Hmac::<Sha1>::new_from_slice(key.as_bytes())?;
    mac.update(msg.as_bytes());
    Ok(mac.finalize().into_bytes().to_vec())
}

/// Relies on hmac's `Hmac<Sha256>`: `new_from_slice` accepts a key of any length, and
/// the tag of SHA-256 has 32 bytes.
#[verifier::external_body]
fn hmac_sha256(key: &str, msg: &str) -> (r: Result<Vec<u8>, InvalidLength>)
    ensures
        r is Ok,
        r->Ok_0@ == hmac_sha256_of(key@, msg@),
        r->Ok_0@.len() == 32,
{
    let mut mac = Hmac::<Sha256>::new_from_slice(key.as_bytes())?;
    mac.update(msg.as_bytes());
    Ok(mac.finalize().into_bytes().to_vec())
}

/// Relies on `hex::encode`: two lowercase digits per byte, high nibble first.
#[verifier::external_body]
fn hex_encode(b: &Vec<u8>) -> (r: String)
    ensures
        r@ == hex_lower(b@),
{
    hex::encode(b)
}

/// The error for a key that the hash primitive refuses.
fn key_error(_e: InvalidLength) -> (r: HWIDError)
    ensures
        r.kind_spec() == "CryptoKeyInvalid"@,
{
    HWIDError::new("CryptoKeyInvalid", "the key has a length that the hash refuses")
}

impl Encryption {
    /// The hex-encoded HMAC of `text` under `key`.
    pub fn generate_hash(&self, key: &str, text: &str) -> (r: Result<String, HWIDError>)
        ensures
            r matches Ok(h) && h@ == digest_of(*self, key@, text@),
        r matches Ok(h) && h@.len() == hash_len(*self),
        r matches Ok(h) && forall|i: int| 0 <= i < h@.len() ==> is_lower_hex(#[trigger] h@[i]),
    {
        let tag = match self {
            Encryption::MD5 => hmac_md5(key, text),
            Encryption::SHA1 => hmac_sha1(key, text),
            Encryption::SHA256 => hmac_sha256(key, text),
        };
        match tag {
            Ok(t) => {
                proof {
                    lemma_hex_lower(t@);
                }
                Ok(hex_encode(&t))
            },
            Err(e) => Err(key_error(e)),
        }
    }
}

} // verus!
