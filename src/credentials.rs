//! The token upstream accepts as a password: the SHA-256 digest of the
//! password followed by the normalized login, in base64.
use vstd::prelude::*;
use vstd::string::*;

verus! {

/// The text without leading and trailing white space.
pub uninterp spec fn trimmed(s: Seq<char>) -> Seq<char>;

/// The text in lower case.
pub uninterp spec fn lowercased(s: Seq<char>) -> Seq<char>;

/// The UTF-8 encoding of a text.
pub uninterp spec fn utf8_of(s: Seq<char>) -> Seq<u8>;

/// The SHA-256 digest of some bytes.
pub uninterp spec fn sha256_of(b: Seq<u8>) -> Seq<u8>;

/// Some bytes in standard, padded base64.
pub uninterp spec fn base64_of(b: Seq<u8>) -> Seq<char>;

/// Relies on `str::trim`: the result depends on the text alone.
#[verifier::external_body]
fn trim(s: &str) -> (r: &str)
    ensures
        r@ == trimmed(s@),
{
    s.trim()
}

/// Relies on `str::to_lowercase`: the result depends on the text alone.
#[verifier::external_body]
fn to_lowercase(s: &str) -> (r: String)
    ensures
        r@ == lowercased(s@),
{
    s.to_lowercase()
}

/// Relies on `str::as_bytes`: a text's UTF-8 encoding.
#[verifier::external_body]
fn utf8(s: &str) -> (r: Vec<u8>)
    ensures
        r@ == utf8_of(s@),
{
    s.as_bytes().to_vec()
}

/// Relies on sha2's `Sha256::digest`: 32 bytes that depend on the input alone.
#[verifier::external_body]
fn sha256(b: &[u8]) -> (r: Vec<u8>)
    ensures
        r@ == sha256_of(b@),
        r@.len() == 32,
{
    <sha2::Sha256 as sha2::Digest>::digest(b).to_vec()
}

/// Relies on base64's `Engine::encode` with the `STANDARD` engine (standard
/// alphabet, padded): the result depends on the bytes alone.
#[verifier::external_body]
fn base64_encode(b: &[u8]) -> (r: String)
    ensures
        r@ == base64_of(b@),
{
    base64::Engine::encode(&base64::engine::general_purpose::STANDARD, b)
}

/// The login as it enters the token: without surrounding white space, in
/// lower case.
pub open spec fn normalized_login(identifier: Seq<char>) -> Seq<char> {
    lowercased(trimmed(identifier))
}

/// The password token for `password` and the login `identifier`.
pub fn encode_iracing_pw(password: &str, identifier: &str) -> (r: String)
    ensures
        r@ == base64_of(sha256_of(utf8_of(password@ + normalized_login(identifier@)))),
{
    let normalized = to_lowercase(trim(identifier));
    let joined = String::from_str(password).concat(normalized.as_str());
    let bytes = utf8(joined.as_str());
    let digest = sha256(bytes.as_slice());
    base64_encode(digest.as_slice())
}

} // verus!
