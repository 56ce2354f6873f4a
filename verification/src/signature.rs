//! Keyed-hash authentication of webhook requests.
//!
//! A request is authentic when its `X-Hub-Signature-256` header spells, in
//! lowercase hex after the `sha256=` prefix, the HMAC-SHA256 digest of the
//! raw request body under the shared secret.

use vstd::prelude::*;
use vstd::string::{StrSliceExecFns, StringExecFns, StringSliceAdditionalSpecFns};

use crate::error::{HeaderParseError, ProcessingError};
use crate::hex::{
    all_lower_hex, decode_hex_lower, hex_lower, hex_value, lemma_hex_lower_of_value,
    lemma_hex_value_of_lower,
};

verus! {

/// A key for HMAC-SHA256 signature verification.
pub struct Key {
    bytes: Vec<u8>,
}

impl View for Key {
    type V = Seq<u8>;

    closed spec fn view(&self) -> Seq<u8> {
        self.bytes@
    }
}

impl Key {
    /// Convert the given input to bytes to use as a key.
    pub fn new(key: &str) -> (r: Key)
        ensures
            r@ == key.spec_bytes(),
    {
        Key { bytes: key.as_bytes_vec() }
    }

    /// The key material.
    fn as_slice(&self) -> (r: &[u8])
        ensures
            r@ == self@,
    {
        self.bytes.as_slice()
    }
}

/// The HMAC-SHA256 digest of a message under a key, as the `hmac` and `sha2`
/// crates compute it. The digest is a function of the key and the message
/// alone; nothing further is assumed about its value.
pub uninterp spec fn hmac_sha256(key: Seq<u8>, message: Seq<u8>) -> Seq<u8>;

/// Relies on `hmac::Hmac<sha2::Sha256>`: `Mac::new_from_slice` accepts keys
/// of any length for HMAC, and `Mac::verify_slice` succeeds exactly when the
/// given tag equals the computed digest, compared in constant time. The
/// digest of HMAC-SHA256 is 32 bytes.
#[verifier::external_body]
fn hmac_sha256_matches(key: &[u8], message: &[u8], tag: &[u8]) -> (r: bool)
    ensures
        r ==> tag@ == hmac_sha256(key@, message@) && hmac_sha256(key@, message@).len() == 32,
        !r ==> tag@ != hmac_sha256(key@, message@) && hmac_sha256(key@, message@).len() == 32,
{
    let mut mac = <hmac::Hmac<sha2::Sha256> as hmac::Mac>::new_from_slice(key)
        .expect("HMAC accepts keys of any length");
    hmac::Mac::update(&mut mac, message);
    hmac::Mac::verify_slice(mac, tag).is_ok()
}

/// The bytes of `sha256=`, the required header prefix.
pub open spec fn sig_prefix() -> Seq<u8> {
    seq![115u8, 104u8, 97u8, 50u8, 53u8, 54u8, 61u8]
}

/// A well-formed signature header: the `sha256=` prefix followed by exactly
/// 64 lowercase hex digits.
pub open spec fn well_formed_header(b: Seq<u8>) -> bool {
    &&& b.len() == 71
    &&& b.subrange(0, 7) == sig_prefix()
    &&& all_lower_hex(b.subrange(7, 71))
}

/// The digest bytes a well-formed header spells out.
pub open spec fn header_digest(b: Seq<u8>) -> Seq<u8> {
    hex_value(b.subrange(7, 71))
}

/// A header authenticates a body under a key exactly when it is well formed
/// and spells the keyed digest of the body.
pub open spec fn authentic_header(b: Seq<u8>, key: Seq<u8>, body: Seq<u8>) -> bool {
    well_formed_header(b) && header_digest(b) == hmac_sha256(key, body)
}

/// A signature value decoded from an `X-Hub-Signature-256` header.
pub struct HubSignature256 {
    mac: Vec<u8>,
}

impl View for HubSignature256 {
    type V = Seq<u8>;

    closed spec fn view(&self) -> Seq<u8> {
        self.mac@
    }
}

/// True when the first seven bytes of `b` are `sha256=`.
fn has_sig_prefix(b: &[u8]) -> (r: bool)
    requires
        b@.len() >= 7,
    ensures
        r == (b@.subrange(0, 7) == sig_prefix()),
{
    let r = b[0] == 115 && b[1] == 104 && b[2] == 97 && b[3] == 50 && b[4] == 53 && b[5] == 54
        && b[6] == 61;
    proof {
        if r {
            assert(b@.subrange(0, 7) =~= sig_prefix());
        } else {
            assert(b@.subrange(0, 7) != sig_prefix());
        }
    }
    r
}

impl HubSignature256 {
    /// Parse a signature header value.
    ///
    /// A value of any length other than 71 fails with a length error carrying
    /// the observed and the expected length; one of length 71 without the
    /// `sha256=` prefix fails with a content error; one malformed only in its
    /// 64 digits fails with a hex-decode error. The three cases exclude one
    /// another.
    pub fn try_from(value: &str) -> (r: Result<HubSignature256, HeaderParseError>)
        ensures
            r is Ok <==> well_formed_header(value.spec_bytes()),
            r is Ok ==> r->Ok_0@ == header_digest(value.spec_bytes()) && r->Ok_0@.len() == 32,
            r is Err ==> (r->Err_0 matches HeaderParseError::Length { .. } <==> value.spec_bytes().len() != 71),
            r matches Err(HeaderParseError::Length { length, intended }) ==> length
                == value.spec_bytes().len() && intended == 71,
            r is Err ==> (r->Err_0 matches HeaderParseError::Content { .. } <==> (
            value.spec_bytes().len() == 71 && value.spec_bytes().subrange(0, 7) != sig_prefix())),
            r matches Err(HeaderParseError::Content { header }) ==> header@ == value@,
            r is Err ==> (r->Err_0 matches HeaderParseError::HexDecode <==> (value.spec_bytes().len()
                == 71 && value.spec_bytes().subrange(0, 7) == sig_prefix() && !all_lower_hex(
                value.spec_bytes().subrange(7, 71),
            ))),
    {
        let b: &[u8] = value.as_bytes();
        let len = b.len();
        if len != 71 {
            return Err(HeaderParseError::Length { length: len, intended: 71 });
        }
        if !has_sig_prefix(b) {
            return Err(HeaderParseError::Content { header: String::from_str(value) });
        }
        let mut tail: Vec<u8> = Vec::new();
        let mut i: usize = 7;
        while i < 71
            invariant
                7 <= i <= 71,
                b@.len() == 71,
                tail@ == b@.subrange(7, i as int),
            decreases 71 - i,
        {
            tail.push(b[i]);
            proof {
                assert(tail@ =~= b@.subrange(7, i + 1 as int));
            }
            i = i + 1;
        }
        match decode_hex_lower(tail.as_slice()) {
            Some(mac) => {
                proof {
                    assert(hex_value(b@.subrange(7, 71)).len() == 32);
                }
                Ok(HubSignature256 { mac })
            },
            None => Err(HeaderParseError::HexDecode),
        }
    }

    /// Spell the signature as a header value: `sha256=` followed by the
    /// digest in lowercase hex.
    pub fn encode(&self) -> (r: Vec<u8>)
        ensures
            r@ == sig_prefix() + hex_lower(self@),
    {
        let mut out: Vec<u8> = Vec::new();
        out.push(115);
        out.push(104);
        out.push(97);
        out.push(50);
        out.push(53);
        out.push(54);
        out.push(61);
        proof {
            assert(out@ =~= sig_prefix());
        }
        let digits = crate::hex::encode_hex_lower(self.mac.as_slice());
        let mut i: usize = 0;
        while i < digits.len()
            invariant
                i <= digits@.len(),
                out@ == sig_prefix() + digits@.take(i as int),
            decreases digits@.len() - i,
        {
            out.push(digits[i]);
            proof {
                assert(sig_prefix() + digits@.take(i + 1 as int) =~= (sig_prefix()
                    + digits@.take(i as int)).push(digits@[i as int]));
            }
            i = i + 1;
        }
        proof {
            assert(digits@.take(i as int) =~= digits@);
        }
        out
    }

    /// Verify that the HMAC-SHA256 digest of `content` under `key` equals the
    /// signature, comparing in constant time.
    pub fn verify(&self, key: &Key, content: &[u8]) -> (r: Result<(), ProcessingError>)
        ensures
            r is Ok <==> self@ == hmac_sha256(key@, content@),
            r is Err ==> r->Err_0 is HmacVerification,
            hmac_sha256(key@, content@).len() == 32,
    {
        if hmac_sha256_matches(key.as_slice(), content, self.mac.as_slice()) {
            Ok(())
        } else {
            Err(ProcessingError::HmacVerification)
        }
    }
}

/// Parse a signature header and verify it against a body: the whole
/// authentication decision for one request.
///
/// Verification succeeds exactly when the header is well formed and spells
/// the keyed digest of the raw body — that is, when the header equals
/// `sha256=` followed by the digest in lowercase hex.
pub fn verify_header(header: &str, key: &Key, body: &[u8]) -> (r: Result<(), ProcessingError>)
    ensures
        r is Ok <==> authentic_header(header.spec_bytes(), key@, body@),
        well_formed_header(header.spec_bytes()) ==> (r is Ok <==> header.spec_bytes()
            == sig_prefix() + hex_lower(hmac_sha256(key@, body@))),
        r is Err ==> (r->Err_0 matches ProcessingError::HeaderParse { .. } <==> !well_formed_header(
            header.spec_bytes(),
        )),
        r is Err ==> (r->Err_0 is HmacVerification <==> (well_formed_header(header.spec_bytes())
            && header_digest(header.spec_bytes()) != hmac_sha256(key@, body@))),
{
    match HubSignature256::try_from(header) {
        Ok(sig) => {
            let r = sig.verify(key, body);
            proof {
                lemma_authentic_header_form(header.spec_bytes(), key@, body@);
            }
            r
        },
        Err(e) => Err(ProcessingError::HeaderParse { source: e }),
    }
}

/// What the authentication gate decides for one request.
#[derive(Debug, Clone, Copy, PartialEq, Eq, Structural)]
pub enum AuthDecision {
    /// Let the request through to the handler.
    Proceed,
    /// Reject the request as unauthenticated.
    Unauthorized,
    /// Reject the request over an internal decoding failure.
    ServerError,
}

/// The whole authentication decision of the middleware in front of the
/// webhook handler, for one request.
///
/// With no secret configured, every request passes through
/// unauthenticated: an explicit operator choice. With a secret, a request
/// without the signature header is unauthorized; one whose header does not
/// parse is an internal decoding failure; one whose header parses but does
/// not spell the keyed digest of the raw body is unauthorized; and only a
/// request whose header authenticates the body proceeds to the handler.
pub fn authenticate(secret: Option<&Key>, header: Option<&str>, body: &[u8]) -> (r: AuthDecision)
    ensures
        secret is None ==> r is Proceed,
        (secret is Some && header is None) ==> r is Unauthorized,
        (secret is Some && header is Some) ==> {
            &&& !well_formed_header(header->0.spec_bytes()) ==> r is ServerError
            &&& authentic_header(header->0.spec_bytes(), secret->0@, body@) ==> r is Proceed
            &&& (well_formed_header(header->0.spec_bytes()) && header_digest(
                header->0.spec_bytes(),
            ) != hmac_sha256(secret->0@, body@)) ==> r is Unauthorized
        },
{
    let key = match secret {
        Some(k) => k,
        None => {
            return AuthDecision::Proceed;
        },
    };
    let value = match header {
        Some(h) => h,
        None => {
            return AuthDecision::Unauthorized;
        },
    };
    match HubSignature256::try_from(value) {
        Ok(sig) => match sig.verify(key, body) {
            Ok(u) => AuthDecision::Proceed,
            Err(e) => AuthDecision::Unauthorized,
        },
        Err(e) => AuthDecision::ServerError,
    }
}

/// A header authenticates a body exactly when it reads `sha256=` followed by
/// the lowercase hex spelling of the 32-byte keyed digest of the body.
pub proof fn lemma_authentic_header_form(b: Seq<u8>, key: Seq<u8>, body: Seq<u8>)
    requires
        hmac_sha256(key, body).len() == 32,
    ensures
        authentic_header(b, key, body) <==> b == sig_prefix() + hex_lower(hmac_sha256(key, body)),
{
    let h = hmac_sha256(key, body);
    lemma_hex_value_of_lower(h);
    if authentic_header(b, key, body) {
        lemma_hex_lower_of_value(b.subrange(7, 71));
        assert(hex_lower(header_digest(b)) == b.subrange(7, 71));
        assert(b =~= b.subrange(0, 7) + b.subrange(7, 71));
        assert(b == sig_prefix() + hex_lower(h));
    }
    if b == sig_prefix() + hex_lower(h) {
        assert(b.len() == 71);
        assert(b.subrange(0, 7) =~= sig_prefix());
        assert(b.subrange(7, 71) =~= hex_lower(h));
        assert(well_formed_header(b));
        assert(header_digest(b) == hex_value(hex_lower(h)));
    }
}

} // verus!
