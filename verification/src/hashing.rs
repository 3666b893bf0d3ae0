//! Password hashing: the password and a pepper are digested with
//! SHA-512/256, the digest is written in base64, and that text is hashed
//! with bcrypt under a salt.

use vstd::prelude::*;
use vstd::string::StringSliceAdditionalSpecFns;

verus! {

/// The bcrypt cost that new hashes are made with.
pub const HASH_COST: u32 = 10;

/// The SHA-512/256 digest of a byte string.
pub uninterp spec fn sha512_256_digest(data: Seq<u8>) -> Seq<u8>;

/// The standard base64 text, with padding, of a byte string.
pub uninterp spec fn base64_text(data: Seq<u8>) -> Seq<char>;

/// The version that a bcrypt hash string is marked with.
#[derive(Debug, Clone, Copy, PartialEq, Eq, Structural)]
pub enum HashVersion {
    TwoA,
    TwoX,
    TwoY,
    TwoB,
}

/// The bcrypt hash string of a password under a cost and a salt, marked
/// with a version.
pub uninterp spec fn bcrypt_text(
    password: Seq<char>,
    cost: u32,
    salt: Seq<u8>,
    version: HashVersion,
) -> Seq<char>;

/// Whether a password matches a stored bcrypt hash string; `None` where the
/// stored text is no well-formed bcrypt hash.
pub uninterp spec fn bcrypt_verdict(password: Seq<char>, stored: Seq<char>) -> Option<bool>;

/// `sha2::Sha512_256::digest` on a byte string: the result is the digest of
/// exactly these bytes, 32 bytes long.
#[verifier::external_body]
fn sha512_256(data: &[u8]) -> (digest: Vec<u8>)
    ensures
        digest@ == sha512_256_digest(data@),
        digest@.len() == 32,
{
    <sha2::Sha512_256 as sha2::Digest>::digest(data).to_vec()
}

/// `base64::encode`: the standard encoding of the bytes. It panics only
/// where the length of the text would not fit in `usize`, which the bound
/// on the input excludes.
#[verifier::external_body]
fn base64_encode(data: &[u8]) -> (text: String)
    requires
        data@.len() <= usize::MAX / 2,
    ensures
        text@ == base64_text(data@),
{
    base64::encode(data)
}

/// `bcrypt::hash_with_salt`, its result formatted for the given version
/// with `format_for_version`. It fails exactly when the cost is outside
/// 4..=31; otherwise the text is the bcrypt hash of the password under this
/// cost and salt, and it is a text that `bcrypt::verify` reads and finds to
/// match the same password: `verify` takes cost and salt from the text,
/// whatever its version, hashes the password again and compares.
#[verifier::external_body]
fn bcrypt_hash(password: &str, cost: u32, salt: [u8; 16], version: HashVersion) -> (r: Result<
    String,
    bcrypt::BcryptError,
>)
    ensures
        r is Ok <==> 4 <= cost <= 31,
        r matches Ok(text) ==> text@ == bcrypt_text(password@, cost, salt@, version),
        r matches Ok(text) ==> bcrypt_verdict(password@, text@) == Some(true),
{
    let version = match version {
        HashVersion::TwoA => bcrypt::Version::TwoA,
        HashVersion::TwoX => bcrypt::Version::TwoX,
        HashVersion::TwoY => bcrypt::Version::TwoY,
        HashVersion::TwoB => bcrypt::Version::TwoB,
    };
    match bcrypt::hash_with_salt(password, cost, salt) {
        Ok(parts) => Ok(parts.format_for_version(version)),
        Err(e) => Err(e),
    }
}

/// `bcrypt::verify`: whether the password matches the stored hash string,
/// or the crate's error where the stored text cannot be read as one.
#[verifier::external_body]
fn bcrypt_verify(password: &str, stored: &str) -> (r: Result<bool, bcrypt::BcryptError>)
    ensures
        match r {
            Ok(matches) => bcrypt_verdict(password@, stored@) == Some(matches),
            Err(_) => bcrypt_verdict(password@, stored@) is None,
        },
{
    bcrypt::verify(password, stored)
}

/// The text that is handed to bcrypt for a password and a pepper: the
/// base64 text of the SHA-512/256 digest of the password's bytes followed by
/// the pepper's bytes.
pub open spec fn peppered_digest(input: Seq<char>, pepper: Seq<char>) -> Seq<char> {
    base64_text(
        sha512_256_digest(vstd::utf8::encode_utf8(input) + vstd::utf8::encode_utf8(pepper)),
    )
}

fn digest_text(input: &str, pepper: &str) -> (text: String)
    ensures
        text@ == peppered_digest(input@, pepper@),
{
    let mut bytes: Vec<u8> = Vec::new();
    bytes.extend_from_slice(input.as_bytes());
    bytes.extend_from_slice(pepper.as_bytes());
    assert(bytes@ =~= input.spec_bytes() + pepper.spec_bytes());
    let digest = sha512_256(bytes.as_slice());
    base64_encode(digest.as_slice())
}

/// The hash text of an input under a salt and a pepper: the bcrypt hash,
/// at cost 10 and marked `2b`, of the peppered digest of the input.
pub open spec fn hash_text(input: Seq<char>, salt: Seq<u8>, pepper: Seq<char>) -> Seq<char> {
    bcrypt_text(peppered_digest(input, pepper), HASH_COST, salt, HashVersion::TwoB)
}

/// Generate a hash for the provided input. The returned text is the bcrypt
/// hash, at cost 10 and marked `2b`, of the peppered digest of the input
/// under the salt. Hashing at this cost never fails, and the text is one
/// that [`verify`] finds to match the same input under the same pepper.
pub fn hash(input: &str, salt: [u8; 16], pepper: &str) -> (r: Result<String, bcrypt::BcryptError>)
    ensures
        r is Ok,
        r->Ok_0@ == hash_text(input@, salt@, pepper@),
        bcrypt_verdict(peppered_digest(input@, pepper@), r->Ok_0@) == Some(true),
{
    let text = digest_text(input, pepper);
    bcrypt_hash(text.as_str(), HASH_COST, salt, HashVersion::TwoB)
}

/// Verify that an input is the one a stored hash was made of. The same
/// `pepper` must be used. Fails exactly where the stored text is no
/// well-formed bcrypt hash.
pub fn verify(stored_hash: &str, input: &str, pepper: &str) -> (r: Result<
    bool,
    bcrypt::BcryptError,
>)
    ensures
        match r {
            Ok(correct) => bcrypt_verdict(peppered_digest(input@, pepper@), stored_hash@) == Some(
                correct,
            ),
            Err(_) => bcrypt_verdict(peppered_digest(input@, pepper@), stored_hash@) is None,
        },
{
    let text = digest_text(input, pepper);
    bcrypt_verify(text.as_str(), stored_hash)
}

} // verus!
