//! Generating a user key: what is sent to the forum, and what is accepted
//! of its answer.
//!
//! The reader opens an address of the forum in a browser, grants the
//! client access there, and pastes the answer of the forum, which is
//! encrypted for the key pair that was made for this one request.

use vstd::prelude::*;
use vstd::string::{StringExecFns, StringSliceAdditionalSpecFns};
use vstd::utf8::{encode_utf8, valid_utf8};
use crate::config::DEFAULT_SITE_URL;
use crate::render::{is_space, is_whitespace};
use crate::text::{from_chars, text_is, to_chars};

verus! {

/// The name under which the client asks for access if the reader gives none.
pub const DEFAULT_APP_NAME: &'static str = "Linux Do 终端客户端";

/// The path of the forum at which a key is asked for.
pub const KEY_REQUEST_PATH: &'static str = "/user-api-key/new?";

/// The size of the key pair in bits.
pub const KEY_BITS: usize = 2048;

/// The number of random bytes in a nonce.
pub const NONCE_BYTES: usize = 32;

/// What the forum answers to a request for a key.
#[derive(Debug)]
pub struct UserApiKeyPayload {
    pub key: String,
    pub nonce: String,
    pub push: bool,
    pub api: i32,
}

/// The outcome of a request for a key that was accepted.
#[derive(Debug)]
pub struct UserApiKeyRequestResult {
    pub payload: UserApiKeyPayload,
}

/// Why a request for a key came to nothing.
#[derive(Clone, Copy, Debug, PartialEq, Eq, Structural)]
pub enum KeyError {
    /// No key pair could be made.
    KeyGeneration,
    /// The public key could not be written out.
    PublicKey,
    /// What was pasted is not base64.
    Encoding,
    /// What was pasted was not encrypted for this request.
    Decryption,
    /// The answer is no text.
    Text,
    /// The answer belongs to another request.
    NonceMismatch,
}

/// The key pair of the `rsa` crate, `rsa::RsaPrivateKey`. It is carried
/// from the making of a request to the reading of its answer; nothing is
/// said of what it holds.
#[verifier::external_type_specification]
#[verifier::external_body]
pub struct ExRsaPrivateKey(rsa::RsaPrivateKey);

/// The hexadecimal digit, in capitals, for a number below sixteen.
pub open spec fn hex_char(d: int) -> char {
    if d < 10 {
        ((48 + d) as u8) as char
    } else {
        ((55 + d) as u8) as char
    }
}

/// The byte may stand in an address as it is: a letter, a digit, or one
/// of `-`, `.`, `_` and `~`.
pub open spec fn is_unreserved(byte: u8) -> bool {
    ||| 0x30 <= byte <= 0x39
    ||| 0x41 <= byte <= 0x5a
    ||| 0x61 <= byte <= 0x7a
    ||| byte == 0x2d
    ||| byte == 0x2e
    ||| byte == 0x5f
    ||| byte == 0x7e
}

/// The bytes written for an address: each byte that may stand as it is
/// by itself, every other one as a percent sign and its two hexadecimal digits.
pub open spec fn percent_encoded(bytes: Seq<u8>) -> Seq<char>
    decreases bytes.len(),
{
    if bytes.len() == 0 {
        Seq::empty()
    } else {
        let byte = bytes.last();
        let before = percent_encoded(bytes.drop_last());
        if is_unreserved(byte) {
            before.push(byte as char)
        } else {
            before.push('%').push(hex_char(byte as int / 16)).push(hex_char(byte as int % 16))
        }
    }
}

/// Calls `urlencoding::encode`, which writes every byte of the text but
/// letters, digits, `-`, `.`, `_` and `~` as a percent sign and two
/// hexadecimal digits in capitals.
#[verifier::external_body]
fn url_encode(text: &str) -> (encoded: String)
    ensures
        encoded@ == percent_encoded(text.spec_bytes()),
{
    urlencoding::encode(text).into_owned()
}

/// The standard base64 text of some bytes, with padding.
pub uninterp spec fn base64_text(bytes: Seq<u8>) -> Seq<char>;

/// Calls `encode` of the `STANDARD` engine of `base64`. The contract only
/// names the outcome: it is `base64_text` of the bytes.
#[verifier::external_body]
fn base64_encode(bytes: &[u8]) -> (text: String)
    ensures
        text@ == base64_text(bytes@),
{
    base64::Engine::encode(&base64::engine::general_purpose::STANDARD, bytes)
}

/// The bytes that a standard base64 text stands for, if it is one.
pub uninterp spec fn base64_bytes(text: Seq<char>) -> Option<Seq<u8>>;

/// Calls `decode` of the `STANDARD` engine of `base64`. The contract only
/// names the outcome: it is `base64_bytes` of the text.
#[verifier::external_body]
fn base64_decode(text: &str) -> (bytes: Option<Vec<u8>>)
    ensures
        match bytes {
            Some(decoded) => base64_bytes(text@) == Some(decoded@),
            None => base64_bytes(text@) is None,
        },
{
    base64::Engine::decode(&base64::engine::general_purpose::STANDARD, text).ok()
}

/// Draws bytes from `rand::thread_rng`. Nothing is known of them but their number.
#[verifier::external_body]
fn random_bytes(count: usize) -> (bytes: Vec<u8>)
    requires
        count <= 4096,
    ensures
        bytes@.len() == count,
{
    let mut rng = rand::thread_rng();
    (0..count).map(|_| rand::Rng::gen::<u8>(&mut rng)).collect()
}

/// Makes a key pair with `rsa::RsaPrivateKey::new`, from the randomness of
/// the system. Nothing is known of the outcome. Only sizes in common use
/// are asked for.
#[verifier::external_body]
fn new_private_key(bits: usize) -> (key: Option<rsa::RsaPrivateKey>)
    requires
        1024 <= bits <= 4096,
{
    rsa::RsaPrivateKey::new(&mut rand_core::OsRng, bits).ok()
}

/// Writes the public half of a key pair as PEM with `to_public_key_pem`
/// of `rsa::pkcs8::EncodePublicKey`. Nothing is known of the outcome.
#[verifier::external_body]
fn public_key_pem(key: &rsa::RsaPrivateKey) -> Option<String> {
    rsa::pkcs8::EncodePublicKey::to_public_key_pem(
        &rsa::RsaPublicKey::from(key),
        rsa::pkcs8::LineEnding::LF,
    ).ok()
}

/// Decrypts with `rsa::RsaPrivateKey::decrypt` and the padding
/// `rsa::Pkcs1v15Encrypt`. Nothing is known of the outcome.
#[verifier::external_body]
fn rsa_decrypt(key: &rsa::RsaPrivateKey, encrypted: &[u8]) -> Option<Vec<u8>> {
    key.decrypt(rsa::Pkcs1v15Encrypt, encrypted).ok()
}

/// Draws an identifier with `uuid::Uuid::new_v4` and writes it out.
/// Nothing is known of the outcome.
#[verifier::external_body]
fn new_client_id() -> String {
    uuid::Uuid::new_v4().to_string()
}

/// Reads bytes as text with `String::from_utf8`, of which vstd says
/// nothing: the text has exactly these bytes, and there is none if and
/// only if the bytes are not UTF-8.
#[verifier::external_body]
fn utf8_text(bytes: Vec<u8>) -> (text: Option<String>)
    ensures
        match text {
            Some(read) => encode_utf8(read@) == bytes@,
            None => !valid_utf8(bytes@),
        },
{
    String::from_utf8(bytes).ok()
}

/// The address that the reader opens to grant access: the forum, the
/// path of the request, and the five fields of the request, each value
/// written for an address.
pub open spec fn authorization_url_of(
    site_url_base: Seq<char>,
    application_name: Seq<char>,
    client_id: Seq<char>,
    public_key_pem: Seq<char>,
    nonce: Seq<char>,
) -> Seq<char> {
    site_url_base + KEY_REQUEST_PATH@ + "application_name="@ + percent_encoded(
        encode_utf8(application_name),
    ) + "&client_id="@ + percent_encoded(encode_utf8(client_id)) + "&scopes=read"@
        + "&public_key="@ + percent_encoded(encode_utf8(public_key_pem)) + "&nonce="@
        + percent_encoded(encode_utf8(nonce))
}

/// Builds the address that the reader opens to grant access.
pub fn authorization_url(
    site_url_base: &str,
    application_name: &str,
    client_id: &str,
    public_key_pem: &str,
    nonce: &str,
) -> (url: String)
    ensures
        url@ == authorization_url_of(
            site_url_base@,
            application_name@,
            client_id@,
            public_key_pem@,
            nonce@,
        ),
{
    let mut url = String::from_str(site_url_base);
    url.append(KEY_REQUEST_PATH);
    url.append("application_name=");
    url.append(url_encode(application_name).as_str());
    url.append("&client_id=");
    url.append(url_encode(client_id).as_str());
    url.append("&scopes=read");
    url.append("&public_key=");
    url.append(url_encode(public_key_pem).as_str());
    url.append("&nonce=");
    url.append(url_encode(nonce).as_str());
    url
}

/// Makes a nonce: the base64 text of `NONCE_BYTES` random bytes.
pub fn generate_nonce() -> (nonce: String)
    ensures
        exists|bytes: Seq<u8>| bytes.len() == NONCE_BYTES && nonce@ == base64_text(bytes),
{
    let bytes = random_bytes(NONCE_BYTES);
    base64_encode(bytes.as_slice())
}

/// A request for a key that waits for the answer of the forum.
pub struct KeyRequest {
    /// The key pair that was made for this request.
    pub private_key: rsa::RsaPrivateKey,
    /// The identifier under which the client asks.
    pub client_id: String,
    /// The public key for which the forum encrypts its answer.
    pub public_key_pem: String,
    /// The nonce that the answer has to bring back.
    pub nonce: String,
    /// The address that the reader opens to grant access.
    pub url: String,
}

/// Prepares a request for a key: makes a key pair, an identifier and a
/// nonce, and builds the address for them. Whether a key pair can be made
/// is not in the hands of this library; a request that was prepared has
/// the address that its parts give.
pub fn begin_key_request(site_url_base: &str, application_name: &str) -> (request: Result<
    KeyRequest,
    KeyError,
>)
    ensures
        match request {
            Ok(prepared) => prepared.url@ == authorization_url_of(
                site_url_base@,
                application_name@,
                prepared.client_id@,
                prepared.public_key_pem@,
                prepared.nonce@,
            ) && exists|bytes: Seq<u8>|
                bytes.len() == NONCE_BYTES && prepared.nonce@ == base64_text(bytes),
            Err(reason) => reason == KeyError::KeyGeneration || reason == KeyError::PublicKey,
        },
{
    let private_key = match new_private_key(KEY_BITS) {
        Some(key) => key,
        None => {
            return Err(KeyError::KeyGeneration);
        },
    };
    let public_key_pem = match public_key_pem(&private_key) {
        Some(pem) => pem,
        None => {
            return Err(KeyError::PublicKey);
        },
    };
    let client_id = new_client_id();
    let nonce = generate_nonce();
    let url = authorization_url(
        site_url_base,
        application_name,
        client_id.as_str(),
        public_key_pem.as_str(),
        nonce.as_str(),
    );
    Ok(KeyRequest { private_key, client_id, public_key_pem, nonce, url })
}

/// `text` without its white space.
pub open spec fn without_spaces(text: Seq<char>) -> Seq<char> {
    text.filter(|c: char| !is_space(c))
}

/// Takes the white space out of a text.
pub fn strip_whitespace(text: &str) -> (stripped: String)
    ensures
        stripped@ == without_spaces(text@),
{
    let chars = to_chars(text);
    let mut kept: Vec<char> = Vec::new();
    let ghost keep = |c: char| !is_space(c);
    proof {
        reveal(Seq::filter);
        assert(chars@.take(0) =~= Seq::empty());
    }
    for i in 0..chars.len()
        invariant
            keep == |c: char| !is_space(c),
            kept@ == chars@.take(i as int).filter(keep),
    {
        proof {
            assert(chars@.take(i + 1) =~= chars@.take(i as int).push(chars@[i as int]));
            chars@.take(i as int).lemma_filter_push(chars@[i as int], keep);
        }
        if !is_whitespace(chars[i]) {
            kept.push(chars[i]);
        }
    }
    assert(chars@.take(chars.len() as int) =~= chars@);
    from_chars(kept.as_slice())
}

/// Reads what the reader pasted: takes the white space out, reads the rest
/// as base64, decrypts it for this request and reads the outcome as text.
/// What is no base64 is refused as such; whether the rest can be decrypted
/// is for the key pair to tell.
pub fn decrypt_payload(request: &KeyRequest, pasted: &str) -> (text: Result<String, KeyError>)
    ensures
        base64_bytes(without_spaces(pasted@)) is None ==> text == Err::<String, KeyError>(
            KeyError::Encoding,
        ),
        base64_bytes(without_spaces(pasted@)) is Some ==> match text {
            Ok(read) => true,
            Err(reason) => reason == KeyError::Decryption || reason == KeyError::Text,
        },
{
    let stripped = strip_whitespace(pasted);
    let encrypted = match base64_decode(stripped.as_str()) {
        Some(bytes) => bytes,
        None => {
            return Err(KeyError::Encoding);
        },
    };
    let decrypted = match rsa_decrypt(&request.private_key, encrypted.as_slice()) {
        Some(bytes) => bytes,
        None => {
            return Err(KeyError::Decryption);
        },
    };
    match utf8_text(decrypted) {
        Some(text) => Ok(text),
        None => Err(KeyError::Text),
    }
}

/// Accepts the answer of the forum if it brings back the nonce of the request.
pub fn accept_payload(payload: UserApiKeyPayload, nonce: &str) -> (accepted: Result<
    UserApiKeyRequestResult,
    KeyError,
>)
    ensures
        match accepted {
            Ok(result) => payload.nonce@ == nonce@ && result.payload == payload,
            Err(reason) => payload.nonce@ != nonce@ && reason == KeyError::NonceMismatch,
        },
{
    let expected = String::from_str(nonce);
    if payload.nonce == expected {
        Ok(UserApiKeyRequestResult { payload })
    } else {
        Err(KeyError::NonceMismatch)
    }
}

/// The number of characters of white space that `text` begins with.
pub open spec fn leading_spaces(text: Seq<char>) -> int
    decreases text.len(),
{
    if text.len() > 0 && is_space(text[0]) {
        1 + leading_spaces(text.subrange(1, text.len() as int))
    } else {
        0
    }
}

/// The number of characters of white space that `text` ends with.
pub open spec fn trailing_spaces(text: Seq<char>) -> int
    decreases text.len(),
{
    if text.len() > 0 && is_space(text.last()) {
        1 + trailing_spaces(text.drop_last())
    } else {
        0
    }
}

/// `text` without the white space at its beginning and at its end.
pub open spec fn trimmed(text: Seq<char>) -> Seq<char> {
    let start = leading_spaces(text);
    let rest = text.subrange(start, text.len() as int);
    rest.subrange(0, rest.len() - trailing_spaces(rest))
}

/// Takes the white space at both ends of a text away.
pub fn trim(text: &[char]) -> (kept: Vec<char>)
    ensures
        kept@ == trimmed(text@),
{
    let mut start: usize = 0;
    assert(text@.subrange(0, text@.len() as int) =~= text@);
    while start < text.len() && is_whitespace(text[start])
        invariant
            start <= text@.len(),
            leading_spaces(text@) == start + leading_spaces(
                text@.subrange(start as int, text@.len() as int),
            ),
        decreases text@.len() - start,
    {
        assert(text@.subrange(start as int, text@.len() as int).subrange(
            1,
            text@.len() - start,
        ) =~= text@.subrange(start + 1, text@.len() as int));
        start += 1;
    }
    let rest = vstd::slice::slice_subrange(text, start, text.len());
    let mut end: usize = rest.len();
    assert(rest@.subrange(0, rest@.len() as int) =~= rest@);
    while end > 0 && is_whitespace(rest[end - 1])
        invariant
            end <= rest@.len(),
            trailing_spaces(rest@) == rest@.len() - end + trailing_spaces(
                rest@.subrange(0, end as int),
            ),
        decreases end,
    {
        assert(rest@.subrange(0, end as int).drop_last() =~= rest@.subrange(0, end - 1));
        end -= 1;
    }
    let mut kept: Vec<char> = Vec::new();
    kept.extend_from_slice(vstd::slice::slice_subrange(rest, 0, end));
    kept
}

/// The address of the forum that the reader means: what was typed,
/// without white space around it and without a slash at its end, or the
/// default forum if nothing was typed.
pub open spec fn site_url_of(typed: Seq<char>) -> Seq<char> {
    let given = if trimmed(typed).len() == 0 {
        DEFAULT_SITE_URL@
    } else {
        trimmed(typed)
    };
    if given.len() > 0 && given.last() == '/' {
        given.drop_last()
    } else {
        given
    }
}

/// Reads the address of the forum that the reader typed.
pub fn site_url(typed: &str) -> (url: String)
    ensures
        url@ == site_url_of(typed@),
{
    let chars = to_chars(typed);
    let kept = trim(chars.as_slice());
    let given = if kept.len() == 0 {
        to_chars(DEFAULT_SITE_URL)
    } else {
        kept
    };
    let length = given.len();
    if length > 0 && given[length - 1] == '/' {
        from_chars(vstd::slice::slice_subrange(given.as_slice(), 0, length - 1))
    } else {
        from_chars(given.as_slice())
    }
}

/// Reads the name of the client that the reader typed: without white
/// space around it, or the default name if nothing was typed.
pub fn application_name(typed: &str) -> (name: String)
    ensures
        name@ == if trimmed(typed@).len() == 0 {
            DEFAULT_APP_NAME@
        } else {
            trimmed(typed@)
        },
{
    let chars = to_chars(typed);
    let kept = trim(chars.as_slice());
    if kept.len() == 0 {
        String::from_str(DEFAULT_APP_NAME)
    } else {
        from_chars(kept.as_slice())
    }
}

/// Tells whether the reader asked for the key to be saved: by a `y`, small
/// or capital, with or without white space around it.
pub fn wants_to_save(answer: &str) -> (save: bool)
    ensures
        save == (trimmed(answer@) == "y"@ || trimmed(answer@) == "Y"@),
{
    let chars = to_chars(answer);
    let kept = trim(chars.as_slice());
    text_is(kept.as_slice(), "y") || text_is(kept.as_slice(), "Y")
}

} // verus!
