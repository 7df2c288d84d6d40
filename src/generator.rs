use vstd::prelude::*;
use crypto::hmac::Hmac;
use crypto::mac::Mac;
use crypto::sha1::Sha1;
use crate::base32::{decode, decode_spec};
use crate::code::{
    counter_bytes, counter_for, counter_message, encode_code, encode_spec, time_counter,
    truncate_digest, truncate_spec,
};

verus! {

/// Why a code could not be generated.
#[derive(Clone, Copy, Debug, PartialEq, Eq, Structural)]
pub enum GenerationError {
    /// The secret is empty, or holds a character outside the Base32 alphabet.
    InvalidSecret,
    /// The clock could not give the current time.
    ClockError,
}

/// HMAC-SHA1 of `message` under `key`.
pub uninterp spec fn hmac_sha1(key: Seq<u8>, message: Seq<u8>) -> Seq<u8>;

/// Relies on rust-crypto's `Hmac<Sha1>` (`Hmac::new`, `Mac::input`, `Mac::result`): the MAC
/// depends on the key and the message alone, and is 20 bytes long, SHA-1's output size.
#[verifier::external_body]
fn hmac_sha1_digest(key: &[u8], message: &[u8]) -> (r: Vec<u8>)
    ensures
        r@ == hmac_sha1(key@, message@),
        r@.len() == 20,
{
    let mut mac = Hmac::new(Sha1::new(), key);
    mac.input(message);
    mac.result().code().to_vec()
}

/// Relies on `String`'s `FromIterator<char>`: the string holds exactly the collected
/// characters, in order.
#[verifier::external_body]
fn string_from_chars(chars: &Vec<char>) -> (r: String)
    ensures
        r@ == chars@,
{
    chars.iter().collect()
}

/// The key that a secret stands for: its Base32 decoding, which must be non-empty.
pub open spec fn secret_key(secret: Seq<char>) -> Option<Seq<u8>> {
    match decode_spec(secret) {
        Some(key) => if key.len() > 0 {
            Some(key)
        } else {
            None
        },
        None => None,
    }
}

/// The Steam Guard code for a 20-byte HMAC-SHA1 digest.
pub open spec fn code_for_digest(digest: Seq<u8>) -> Seq<char> {
    encode_spec(truncate_spec(digest))
}

/// The Steam Guard code for a key at a Unix timestamp.
pub open spec fn code_for_key(key: Seq<u8>, timestamp: u64) -> Seq<char> {
    code_for_digest(hmac_sha1(key, counter_message(time_counter(timestamp))))
}

/// What generating a code gives: a bad secret is reported first, then a missing time.
pub open spec fn generate_spec(secret: Seq<char>, now: Option<u64>) -> Result<
    Seq<char>,
    GenerationError,
> {
    match secret_key(secret) {
        None => Err(GenerationError::InvalidSecret),
        Some(key) => match now {
            None => Err(GenerationError::ClockError),
            Some(t) => Ok(code_for_key(key, t)),
        },
    }
}

/// Turns a 20-byte HMAC-SHA1 digest into its Steam Guard code.
pub fn code_from_digest(digest: &[u8]) -> (r: String)
    requires
        digest@.len() == 20,
    ensures
        r@ == code_for_digest(digest@),
{
    let chars = encode_code(truncate_digest(digest));
    string_from_chars(&chars)
}

/// Generates the Steam Guard code for a Base32 secret at the time `now`, where `None` stands
/// for a clock that could not be read.
pub fn generate(secret: &str, now: Option<u64>) -> (r: Result<String, GenerationError>)
    ensures
        match r {
            Ok(code) => generate_spec(secret@, now) == Ok::<Seq<char>, GenerationError>(code@),
            Err(e) => generate_spec(secret@, now) == Err::<Seq<char>, GenerationError>(e),
        },
{
    let key = match decode(secret) {
        Some(key) => key,
        None => {
            return Err(GenerationError::InvalidSecret);
        },
    };
    if key.len() == 0 {
        return Err(GenerationError::InvalidSecret);
    }
    let timestamp = match now {
        Some(t) => t,
        None => {
            return Err(GenerationError::ClockError);
        },
    };
    let message = counter_bytes(counter_for(timestamp));
    let digest = hmac_sha1_digest(key.as_slice(), message.as_slice());
    Ok(code_from_digest(digest.as_slice()))
}

/// Generates the Steam Guard code for a Base32 secret at a given Unix timestamp.
pub fn generate_at(secret: &str, timestamp: u64) -> (r: Result<String, GenerationError>)
    ensures
        match r {
            Ok(code) => secret_key(secret@) matches Some(key) && code@ == code_for_key(
                key,
                timestamp,
            ),
            Err(e) => e == GenerationError::InvalidSecret && secret_key(secret@) is None,
        },
{
    generate(secret, Some(timestamp))
}

} // verus!
