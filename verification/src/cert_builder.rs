//! Trusted certificates for commit-signature verification.
//!
//! A keyring file is a concatenation of OpenPGP certificate packets. Loading
//! is best-effort: a malformed certificate is dropped, never aborting the
//! load of the remaining valid certificates, so that one bad packet cannot
//! break a runner that may be self-hosting. An empty set is a legal
//! configuration; it authentically fails every verification.

use vstd::prelude::*;

use sequoia_openpgp::parse::Parse;

use crate::error::ProcessingError;

verus! {

#[verifier::external_type_specification]
#[verifier::external_body]
pub struct ExCert(sequoia_openpgp::Cert);

#[verifier::external_type_specification]
#[verifier::external_body]
pub struct ExPgpSignature(sequoia_openpgp::packet::Signature);

/// The values carried by the `Some` entries of a sequence, in order.
pub open spec fn somes_of<T>(s: Seq<Option<T>>) -> Seq<T>
    decreases s.len(),
{
    if s.len() == 0 {
        Seq::empty()
    } else {
        (match s[0] {
            Some(c) => seq![c],
            None => Seq::empty(),
        }) + somes_of(s.drop_first())
    }
}

/// There are never more collected values than entries, and exactly as many
/// when every entry is present.
pub proof fn lemma_somes_of_len<T>(s: Seq<Option<T>>)
    ensures
        somes_of(s).len() <= s.len(),
        (somes_of(s).len() == s.len()) <==> (forall|i: int|
            0 <= i < s.len() ==> (#[trigger] s[i]) is Some),
    decreases s.len(),
{
    if s.len() == 0 {
    } else {
        let d = s.drop_first();
        lemma_somes_of_len(d);
        assert(forall|i: int| 0 <= i < d.len() ==> #[trigger] d[i] == s[i + 1]);
        if s[0] is Some {
            assert(somes_of(s).len() == 1 + somes_of(d).len());
            if somes_of(s).len() == s.len() {
                assert forall|i: int| 0 <= i < s.len() implies (#[trigger] s[i]) is Some by {
                    if i >= 1 {
                        assert(d[i - 1] is Some);
                    }
                }
            }
            if forall|i: int| 0 <= i < s.len() ==> (#[trigger] s[i]) is Some {
                assert forall|i: int| 0 <= i < d.len() implies (#[trigger] d[i]) is Some by {
                    assert(s[i + 1] is Some);
                }
            }
        } else {
            assert(somes_of(s).len() == somes_of(d).len());
            assert(!((#[trigger] s[0]) is Some));
        }
    }
}

/// Appending an entry appends its value, if any, to the collected sequence.
proof fn lemma_somes_of_push<T>(s: Seq<Option<T>>, x: Option<T>)
    ensures
        somes_of(s.push(x)) == somes_of(s) + (match x {
            Some(c) => seq![c],
            None => Seq::<T>::empty(),
        }),
    decreases s.len(),
{
    let tail: Seq<T> = match x {
        Some(c) => seq![c],
        None => Seq::empty(),
    };
    let p = s.push(x);
    if s.len() == 0 {
        assert(p.drop_first() =~= Seq::<Option<T>>::empty());
        assert(somes_of(p.drop_first()) == Seq::<T>::empty());
        assert(p[0] == x);
        assert(somes_of(s) == Seq::<T>::empty());
        assert(somes_of(p) =~= somes_of(s) + tail);
    } else {
        lemma_somes_of_push(s.drop_first(), x);
        assert(p.drop_first() =~= s.drop_first().push(x));
        assert(p[0] == s[0]);
        assert(somes_of(p) =~= somes_of(s) + tail);
    }
}

/// Keep exactly the present values, dropping every `None`, in order.
pub fn collect_somes<T>(items: Vec<Option<T>>) -> (r: Vec<T>)
    ensures
        r@ == somes_of(items@),
{
    let mut src = items;
    let mut out: Vec<T> = Vec::new();
    proof {
        assert(somes_of(src@) + out@ =~= somes_of(src@));
    }
    while src.len() > 0
        invariant
            somes_of(items@) == somes_of(src@) + out@,
        decreases src@.len(),
    {
        let ghost pre = src@;
        let item = src.pop().unwrap();
        proof {
            assert(pre =~= pre.drop_last().push(pre.last()));
            lemma_somes_of_push(pre.drop_last(), pre.last());
        }
        match item {
            Some(c) => {
                let ghost preout = out@;
                out.insert(0, c);
                proof {
                    assert(out@ =~= seq![pre.last()->0] + preout);
                    assert(somes_of(src@) + out@ =~= (somes_of(src@) + seq![pre.last()->0])
                        + preout);
                }
            },
            None => {
                proof {
                    assert(somes_of(src@) + out@ =~= (somes_of(src@) + Seq::<T>::empty()) + out@);
                }
            },
        }
    }
    proof {
        assert(src@ =~= Seq::<Option<T>>::empty());
        assert(somes_of(src@) + out@ =~= out@);
    }
    out
}

/// The number of certificates that `sequoia_openpgp`'s certificate parser
/// reads from the bytes of a keyring file, or `None` when it can build no
/// parser over them at all. Parsing is a function of the bytes alone.
pub uninterp spec fn parsed_cert_count(data: Seq<u8>) -> Option<nat>;

/// A keyring file over whose bytes a certificate parser can be built; a
/// malformed certificate inside it still parses as a file.
pub open spec fn keyring_parseable(data: Seq<u8>) -> bool {
    parsed_cert_count(data) is Some
}

/// Relies on `sequoia_openpgp::cert::CertParser::from_bytes`: the parser
/// walks the concatenated packets of a keyring and yields, in order, one
/// parsed certificate or one error per certificate-shaped packet group;
/// `None` comes back only when no parser could be built over the bytes.
#[verifier::external_body]
fn parse_cert_results(data: &[u8]) -> (r: Option<Vec<Option<sequoia_openpgp::Cert>>>)
    ensures
        r is Some <==> parsed_cert_count(data@) is Some,
        r matches Some(v) ==> somes_of(v@).len() == parsed_cert_count(data@)->0,
{
    match sequoia_openpgp::cert::CertParser::from_bytes(data) {
        Ok(parser) => Some(parser.map(|item| item.ok()).collect()),
        Err(_) => None,
    }
}

/// Relies on `sequoia_openpgp`'s key amalgamation iterator and
/// `Signature::verify_message`: of the certificate's keys, only those valid
/// under the standard policy, alive, not revoked, signing-capable and of a
/// supported algorithm are candidates — the checks the crate's stream
/// verifier makes, though evaluated here at the current time rather than at
/// the signature's creation time — and `verify_message` checks the signature
/// cryptographically over exactly the given bytes. Returns whether any
/// candidate key of this certificate validates the signature over `msg`.
#[verifier::external_body]
fn cert_verifies_signature(
    cert: &sequoia_openpgp::Cert,
    sig: &sequoia_openpgp::packet::Signature,
    msg: &[u8],
) -> (r: bool) {
    let policy = sequoia_openpgp::policy::StandardPolicy::new();
    cert.keys().with_policy(&policy, None).alive().revoked(false).for_signing().supported().any(
        |ka| sig.verify_message(ka.key(), msg).is_ok(),
    )
}

/// A set of trusted OpenPGP certificates loaded from one keyring file.
pub struct KeyringFile {
    certs: Vec<sequoia_openpgp::Cert>,
}

impl View for KeyringFile {
    type V = Seq<sequoia_openpgp::Cert>;

    closed spec fn view(&self) -> Seq<sequoia_openpgp::Cert> {
        self.certs@
    }
}

impl KeyringFile {
    /// Load OpenPGP certificates ("pubkeys") from the bytes of a keyring
    /// file.
    ///
    /// Loading succeeds exactly when a parser can be built over the bytes,
    /// and the set then holds exactly the certificates that parse: a
    /// malformed certificate packet inside the file is dropped, and the
    /// remaining valid certificates are kept. A file with no valid
    /// certificate yields an empty, usable set.
    pub fn from_bytes(data: &[u8]) -> (r: Result<KeyringFile, ProcessingError>)
        ensures
            r is Ok <==> keyring_parseable(data@),
            r matches Ok(k) ==> k@.len() == parsed_cert_count(data@)->0,
            r is Err ==> r->Err_0 is InvalidKeyringFile,
    {
        match parse_cert_results(data) {
            Some(parsed) => Ok(KeyringFile { certs: collect_somes(parsed) }),
            None => Err(ProcessingError::InvalidKeyringFile),
        }
    }

    /// The number of certificates in the set.
    pub fn cert_count(&self) -> (r: usize)
        ensures
            r == self@.len(),
    {
        self.certs.len()
    }

    /// The certificate at an index.
    pub fn cert_at(&self, i: usize) -> (r: &sequoia_openpgp::Cert)
        requires
            i < self@.len(),
        ensures
            *r == self@[i as int],
    {
        &self.certs[i]
    }

    /// Whether some certificate of this set validates the signature over
    /// `msg` under the standard policy. Only the supplied certificates are
    /// consulted as trust anchors; an empty set validates nothing.
    pub fn check(&self, sig: &sequoia_openpgp::packet::Signature, msg: &[u8]) -> (r: bool)
        ensures
            self@.len() == 0 ==> !r,
    {
        let mut i: usize = 0;
        while i < self.certs.len()
            invariant
                i <= self@.len(),
            decreases self@.len() - i,
        {
            if cert_verifies_signature(&self.certs[i], sig, msg) {
                return true;
            }
            i = i + 1;
        }
        false
    }
}

} // verus!
