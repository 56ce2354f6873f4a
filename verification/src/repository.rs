//! Commit modelling, canonical signed-payload reconstruction, and the
//! checkout integrity check.
//!
//! A commit's detached signature covers the exact byte sequence that was
//! hashed at signing time: the tree line, one parent line per parent in
//! declared order, the author and committer lines, a blank line, and the
//! message split into lines, with one trailing newline. Reconstruction here
//! is byte-exact; any deviation makes a legitimate signature fail.

use vstd::prelude::*;

use sequoia_openpgp::parse::Parse;

use crate::cert_builder::{collect_somes, lemma_somes_of_len, KeyringFile};
use crate::decfmt::{dec_int, format_i64, format_pad2, pad2};
use crate::error::ProcessingError;
use crate::hex::{all_hex, all_lower_hex, hex_value, lemma_hex_lower_of_value};

verus! {

/// Name, address and timestamp of a commit author or committer.
///
/// The timestamp is seconds since the epoch; the timezone is an offset in
/// minutes from UTC, negative for west of UTC.
pub struct GitIdent {
    pub name: Vec<u8>,
    pub email: Vec<u8>,
    pub seconds: i64,
    pub offset_minutes: i32,
}

/// The fields of a commit object that its detached signature covers, plus
/// the raw bytes of the signature field itself.
///
/// Object ids travel as hex digits, as git spells them. The message holds
/// the raw commit message bytes; a commit without a message is an empty
/// message.
pub struct CommitInfo {
    pub tree_id: Vec<u8>,
    pub parent_ids: Vec<Vec<u8>>,
    pub author: GitIdent,
    pub committer: GitIdent,
    pub message: Vec<u8>,
    pub gpgsig: Option<Vec<u8>>,
}

/// The bytes of `tree `.
pub open spec fn tree_prefix() -> Seq<u8> {
    seq![116u8, 114u8, 101u8, 101u8, 32u8]
}

/// The bytes of `parent `.
pub open spec fn parent_prefix() -> Seq<u8> {
    seq![112u8, 97u8, 114u8, 101u8, 110u8, 116u8, 32u8]
}

/// The bytes of `author`.
pub open spec fn author_label() -> Seq<u8> {
    seq![97u8, 117u8, 116u8, 104u8, 111u8, 114u8]
}

/// The bytes of `committer`.
pub open spec fn committer_label() -> Seq<u8> {
    seq![99u8, 111u8, 109u8, 109u8, 105u8, 116u8, 116u8, 101u8, 114u8]
}

/// An identity line of the canonical payload:
/// `<label> <name> <<email>> <seconds> <sign><HH><MM>`.
pub open spec fn ident_line(label: Seq<u8>, id: GitIdent) -> Seq<u8> {
    let magnitude = if id.offset_minutes < 0 {
        -(id.offset_minutes as int)
    } else {
        id.offset_minutes as int
    };
    let sign = if id.offset_minutes < 0 {
        seq![45u8]
    } else {
        seq![43u8]
    };
    label + seq![32u8] + id.name@ + seq![32u8, 60u8] + id.email@ + seq![62u8, 32u8] + dec_int(
        id.seconds as int,
    ) + seq![32u8] + sign + pad2((magnitude / 60) as nat) + pad2((magnitude % 60) as nat)
}

/// One `parent <id>` line, ending in a newline, per parent in declared order.
pub open spec fn parents_block(parents: Seq<Vec<u8>>) -> Seq<u8>
    decreases parents.len(),
{
    if parents.len() == 0 {
        Seq::empty()
    } else {
        parent_prefix() + parents[0]@ + seq![10u8] + parents_block(parents.drop_first())
    }
}

/// `s` with every carriage return that directly precedes a line feed removed.
pub open spec fn strip_cr_before_lf(s: Seq<u8>) -> Seq<u8>
    decreases s.len(),
{
    if s.len() == 0 {
        Seq::empty()
    } else if s.len() >= 2 && s[0] == 13 && s[1] == 10 {
        seq![10u8] + strip_cr_before_lf(s.skip(2))
    } else {
        seq![s[0]] + strip_cr_before_lf(s.skip(1))
    }
}

/// `s` without its final line feed, if it ends in one.
pub open spec fn drop_trailing_lf(s: Seq<u8>) -> Seq<u8> {
    if s.len() > 0 && s.last() == 10 {
        s.drop_last()
    } else {
        s
    }
}

/// The commit message as its lines joined by single line feeds: carriage
/// returns of `\r\n` endings are dropped, as is the final line terminator.
pub open spec fn message_canon(msg: Seq<u8>) -> Seq<u8> {
    drop_trailing_lf(strip_cr_before_lf(msg))
}

/// Stripping carriage returns leaves a message without any untouched.
proof fn lemma_strip_cr_without_cr(s: Seq<u8>)
    requires
        forall|i: int| 0 <= i < s.len() ==> s[i] != 13,
    ensures
        strip_cr_before_lf(s) == s,
    decreases s.len(),
{
    if s.len() == 0 {
        assert(strip_cr_before_lf(s) =~= s);
    } else {
        assert(forall|i: int| 0 <= i < s.skip(1).len() ==> s.skip(1)[i] != 13);
        lemma_strip_cr_without_cr(s.skip(1));
        assert(strip_cr_before_lf(s) =~= s);
    }
}

/// The message enters the canonical payload verbatim: one that holds no
/// carriage return and does not end in a line feed is reproduced byte for
/// byte.
pub proof fn lemma_message_canon_verbatim(msg: Seq<u8>)
    requires
        forall|i: int| 0 <= i < msg.len() ==> msg[i] != 13,
        msg.len() > 0 ==> msg.last() != 10,
    ensures
        message_canon(msg) == msg,
{
    lemma_strip_cr_without_cr(msg);
}

/// The message part of the canonical payload: nothing for an empty message,
/// otherwise the canonical message lines followed by one line feed.
pub open spec fn message_part(msg: Seq<u8>) -> Seq<u8> {
    if msg.len() == 0 {
        Seq::empty()
    } else {
        message_canon(msg) + seq![10u8]
    }
}

/// The canonical byte payload that a commit's detached signature covers.
pub open spec fn canonical_payload_spec(c: CommitInfo) -> Seq<u8> {
    tree_prefix() + c.tree_id@ + seq![10u8] + parents_block(c.parent_ids@) + ident_line(
        author_label(),
        c.author,
    ) + seq![10u8] + ident_line(committer_label(), c.committer) + seq![10u8] + seq![10u8]
        + message_part(c.message@)
}

/// Append all of `src` to `out`.
fn push_all(out: &mut Vec<u8>, src: &[u8])
    ensures
        final(out)@ == old(out)@ + src@,
{
    let mut i: usize = 0;
    while i < src.len()
        invariant
            i <= src@.len(),
            out@ == old(out)@ + src@.take(i as int),
        decreases src@.len() - i,
    {
        out.push(src[i]);
        proof {
            assert(old(out)@ + src@.take(i + 1 as int) =~= (old(out)@ + src@.take(i as int)).push(
                src@[i as int],
            ));
        }
        i = i + 1;
    }
    proof {
        assert(src@.take(i as int) =~= src@);
    }
}

/// Append the bytes of `tree `.
fn push_tree_prefix(out: &mut Vec<u8>)
    ensures
        final(out)@ == old(out)@ + tree_prefix(),
{
    out.push(116);
    out.push(114);
    out.push(101);
    out.push(101);
    out.push(32);
    proof {
        assert(out@ =~= old(out)@ + tree_prefix());
    }
}

/// Append the bytes of `parent `.
fn push_parent_prefix(out: &mut Vec<u8>)
    ensures
        final(out)@ == old(out)@ + parent_prefix(),
{
    out.push(112);
    out.push(97);
    out.push(114);
    out.push(101);
    out.push(110);
    out.push(116);
    out.push(32);
    proof {
        assert(out@ =~= old(out)@ + parent_prefix());
    }
}

/// The label bytes of `author`.
fn author_label_bytes() -> (r: Vec<u8>)
    ensures
        r@ == author_label(),
{
    let mut out: Vec<u8> = Vec::new();
    out.push(97);
    out.push(117);
    out.push(116);
    out.push(104);
    out.push(111);
    out.push(114);
    proof {
        assert(out@ =~= author_label());
    }
    out
}

/// The label bytes of `committer`.
fn committer_label_bytes() -> (r: Vec<u8>)
    ensures
        r@ == committer_label(),
{
    let mut out: Vec<u8> = Vec::new();
    out.push(99);
    out.push(111);
    out.push(109);
    out.push(109);
    out.push(105);
    out.push(116);
    out.push(116);
    out.push(101);
    out.push(114);
    proof {
        assert(out@ =~= committer_label());
    }
    out
}

/// Format one identity line of the canonical payload, exactly as git spells
/// it: `<label> <name> <<email>> <seconds> <sign><HH><MM>`.
pub fn format_signature(label: &[u8], sig: &GitIdent) -> (r: Vec<u8>)
    ensures
        r@ == ident_line(label@, *sig),
{
    let mut out: Vec<u8> = Vec::new();
    push_all(&mut out, label);
    out.push(32);
    push_all(&mut out, sig.name.as_slice());
    out.push(32);
    out.push(60);
    push_all(&mut out, sig.email.as_slice());
    out.push(62);
    out.push(32);
    let seconds = format_i64(sig.seconds);
    push_all(&mut out, seconds.as_slice());
    out.push(32);
    let offset = sig.offset_minutes;
    let magnitude: u32 = if offset < 0 {
        (-(offset as i64)) as u32
    } else {
        offset as u32
    };
    if offset < 0 {
        out.push(45);
    } else {
        out.push(43);
    }
    let hours = format_pad2((magnitude / 60) as u64);
    push_all(&mut out, hours.as_slice());
    let minutes = format_pad2((magnitude % 60) as u64);
    push_all(&mut out, minutes.as_slice());
    proof {
        assert(out@ =~= ident_line(label@, *sig));
    }
    out
}

/// Appending one parent to the list appends one `parent` line to the block.
proof fn lemma_parents_block_push(parents: Seq<Vec<u8>>, p: Vec<u8>)
    ensures
        parents_block(parents.push(p)) == parents_block(parents) + parent_prefix() + p@
            + seq![10u8],
    decreases parents.len(),
{
    let s = parents.push(p);
    if parents.len() == 0 {
        assert(s.drop_first() =~= Seq::<Vec<u8>>::empty());
        assert(parents_block(s.drop_first()) == Seq::<u8>::empty());
        assert(s[0] == p);
        assert(parents_block(s) == parent_prefix() + p@ + seq![10u8] + parents_block(
            s.drop_first(),
        ));
        assert(parents_block(parents) == Seq::<u8>::empty());
        assert(parents_block(s) =~= parents_block(parents) + parent_prefix() + p@ + seq![10u8]);
    } else {
        lemma_parents_block_push(parents.drop_first(), p);
        assert(s.drop_first() =~= parents.drop_first().push(p));
        assert(s[0] == parents[0]);
        assert(parents_block(s) == parent_prefix() + parents[0]@ + seq![10u8] + parents_block(
            s.drop_first(),
        ));
        assert(parents_block(parents) == parent_prefix() + parents[0]@ + seq![10u8]
            + parents_block(parents.drop_first()));
        assert(parents_block(s) =~= parents_block(parents) + parent_prefix() + p@ + seq![10u8]);
    }
}

/// Append the canonical message part: the message lines joined by line
/// feeds, with `\r\n` endings folded to `\n` and one final line feed.
fn push_message_part(out: &mut Vec<u8>, msg: &[u8])
    ensures
        final(out)@ == old(out)@ + message_part(msg@),
{
    if msg.len() == 0 {
        return ;
    }
    let mut canon: Vec<u8> = Vec::new();
    let mut i: usize = 0;
    proof {
        assert(msg@.skip(0) =~= msg@);
        assert(canon@ + strip_cr_before_lf(msg@) =~= strip_cr_before_lf(msg@));
    }
    while i < msg.len()
        invariant
            i <= msg@.len(),
            strip_cr_before_lf(msg@) == canon@ + strip_cr_before_lf(msg@.skip(i as int)),
        decreases msg@.len() - i,
    {
        if msg[i] == 13 && i + 1 < msg.len() && msg[i + 1] == 10 {
            canon.push(10);
            proof {
                assert(msg@.skip(i as int).skip(2) =~= msg@.skip(i + 2 as int));
                assert(msg@.skip(i as int)[0] == 13 && msg@.skip(i as int)[1] == 10);
            }
            i = i + 2;
        } else {
            canon.push(msg[i]);
            proof {
                assert(msg@.skip(i as int).skip(1) =~= msg@.skip(i + 1 as int));
                if msg@.skip(i as int).len() >= 2 {
                    assert(!(msg@.skip(i as int)[0] == 13 && msg@.skip(i as int)[1] == 10));
                }
            }
            i = i + 1;
        }
    }
    proof {
        assert(msg@.skip(i as int) =~= Seq::<u8>::empty());
        assert(canon@ + strip_cr_before_lf(msg@.skip(i as int)) =~= canon@);
        assert(canon@ == strip_cr_before_lf(msg@));
    }
    if canon.len() > 0 && canon[canon.len() - 1] == 10 {
        canon.pop();
        proof {
            assert(canon@ =~= message_canon(msg@));
        }
    }
    push_all(out, canon.as_slice());
    out.push(10);
    proof {
        assert(out@ =~= old(out)@ + message_part(msg@));
    }
}

/// Reconstruct the canonical byte payload that the commit's detached
/// signature covers.
pub fn canonical_payload(c: &CommitInfo) -> (r: Vec<u8>)
    ensures
        r@ == canonical_payload_spec(*c),
{
    let mut out: Vec<u8> = Vec::new();
    push_tree_prefix(&mut out);
    push_all(&mut out, c.tree_id.as_slice());
    out.push(10);
    let ghost head = out@;
    let mut j: usize = 0;
    while j < c.parent_ids.len()
        invariant
            j <= c.parent_ids@.len(),
            out@ == head + parents_block(c.parent_ids@.take(j as int)),
        decreases c.parent_ids@.len() - j,
    {
        push_parent_prefix(&mut out);
        push_all(&mut out, c.parent_ids[j].as_slice());
        out.push(10);
        proof {
            lemma_parents_block_push(c.parent_ids@.take(j as int), c.parent_ids@[j as int]);
            assert(c.parent_ids@.take(j + 1 as int) =~= c.parent_ids@.take(j as int).push(
                c.parent_ids@[j as int],
            ));
            assert(out@ =~= head + parents_block(c.parent_ids@.take(j + 1 as int)));
        }
        j = j + 1;
    }
    proof {
        assert(c.parent_ids@.take(j as int) =~= c.parent_ids@);
    }
    let author = format_signature(author_label_bytes().as_slice(), &c.author);
    push_all(&mut out, author.as_slice());
    out.push(10);
    let committer = format_signature(committer_label_bytes().as_slice(), &c.committer);
    push_all(&mut out, committer.as_slice());
    out.push(10);
    out.push(10);
    push_message_part(&mut out, c.message.as_slice());
    proof {
        assert(out@ =~= canonical_payload_spec(*c));
    }
    out
}

/// A full object id: exactly 40 hex digits of either case.
pub open spec fn is_full_object_id(s: Seq<u8>) -> bool {
    s.len() == 40 && all_hex(s)
}

/// Byte-wise equality of two slices.
fn bytes_eq(a: &[u8], b: &[u8]) -> (r: bool)
    ensures
        r == (a@ == b@),
{
    if a.len() != b.len() {
        return false;
    }
    let mut i: usize = 0;
    while i < a.len()
        invariant
            i <= a@.len(),
            a@.len() == b@.len(),
            forall|j: int| 0 <= j < i ==> a@[j] == b@[j],
        decreases a@.len() - i,
    {
        if a[i] != b[i] {
            return false;
        }
        i = i + 1;
    }
    proof {
        assert(a@ =~= b@);
    }
    true
}

/// Enforce checkout integrity: the resolved, checked-out object id must
/// denote exactly the object the event requested.
///
/// Both ids must be full 40-digit hex object ids; the requested id is
/// accepted in either case, as git parses it. Success means the two ids
/// denote the same object bytes; any mismatch is an integrity failure
/// carrying both ids, and an id that is not a full hex object id fails as a
/// git operation failure, as resolving it would.
pub fn check_integrity(actual: &[u8], expected: &[u8]) -> (r: Result<(), ProcessingError>)
    ensures
        r is Ok <==> (is_full_object_id(actual@) && is_full_object_id(expected@) && hex_value(
            actual@,
        ) == hex_value(expected@)),
        r is Err ==> (r->Err_0 is GitOperation <==> !(is_full_object_id(actual@)
            && is_full_object_id(expected@))),
        r is Err ==> (r->Err_0 matches ProcessingError::RepositoryIntegrity { .. } <==> (
        is_full_object_id(actual@) && is_full_object_id(expected@) && hex_value(actual@)
            != hex_value(expected@))),
        r matches Err(ProcessingError::RepositoryIntegrity { actual: a, expected: e }) ==> a@
            == actual@ && e@ == expected@,
{
    if actual.len() != 40 || expected.len() != 40 {
        return Err(ProcessingError::GitOperation);
    }
    let actual_bytes = match crate::hex::decode_hex_any(actual) {
        Some(v) => v,
        None => {
            return Err(ProcessingError::GitOperation);
        },
    };
    let expected_bytes = match crate::hex::decode_hex_any(expected) {
        Some(v) => v,
        None => {
            return Err(ProcessingError::GitOperation);
        },
    };
    if bytes_eq(actual_bytes.as_slice(), expected_bytes.as_slice()) {
        Ok(())
    } else {
        let mut a: Vec<u8> = Vec::new();
        push_all(&mut a, actual);
        let mut e: Vec<u8> = Vec::new();
        push_all(&mut e, expected);
        proof {
            assert(a@ =~= actual@);
            assert(e@ =~= expected@);
        }
        Err(ProcessingError::RepositoryIntegrity { actual: a, expected: e })
    }
}

/// Two full object ids in lowercase hex that denote the same object are the
/// same id, byte for byte: for a lowercase requested id, checkout integrity
/// means exact string equality with the resolved id.
pub proof fn lemma_matching_ids_equal(a: Seq<u8>, b: Seq<u8>)
    requires
        is_full_object_id(a),
        is_full_object_id(b),
        all_lower_hex(a),
        all_lower_hex(b),
        hex_value(a) == hex_value(b),
    ensures
        a == b,
{
    lemma_hex_lower_of_value(a);
    lemma_hex_lower_of_value(b);
}

/// The packet bytes enclosed in an armored signature field, as
/// `sequoia_openpgp`'s tolerant armor reader decodes them, or `None` when it
/// cannot decode the field at all. Decoding is a function of the bytes
/// alone.
pub uninterp spec fn armored_content(data: Seq<u8>) -> Option<Seq<u8>>;

/// The shape of the packets that `sequoia_openpgp` reads from decoded
/// signature-field bytes: one entry per packet, true for a signature packet,
/// false for a packet of any other kind; `None` when the bytes cannot be
/// read as packets at all. Parsing is a function of the bytes alone.
pub uninterp spec fn packet_summary(data: Seq<u8>) -> Option<Seq<bool>>;

/// A readable signature field: its armor decodes, the enclosed bytes read as
/// packets, and every packet is a signature packet. Whether the signatures
/// themselves validate is a separate question.
pub open spec fn sig_field_readable(s: Seq<u8>) -> bool {
    &&& armored_content(s) is Some
    &&& packet_summary(armored_content(s)->0) is Some
    &&& forall|i: int|
        0 <= i < packet_summary(armored_content(s)->0)->0.len() ==> #[trigger] packet_summary(
            armored_content(s)->0,
        )->0[i]
}

/// Relies on `sequoia_openpgp::armor::Reader` in tolerant mode: the reader
/// decodes the ASCII armor around a signature, forgiving formatting
/// irregularities between intact boundary lines, and yields the enclosed
/// packet bytes; input it cannot decode at all is an error.
#[verifier::external_body]
fn armor_decode(data: &[u8]) -> (r: Option<Vec<u8>>)
    ensures
        r is Some <==> armored_content(data@) is Some,
        r matches Some(v) ==> v@ == armored_content(data@)->0,
{
    let mode = sequoia_openpgp::armor::ReaderMode::Tolerant(
        Some(sequoia_openpgp::armor::Kind::Signature),
    );
    let mut reader = sequoia_openpgp::armor::Reader::from_bytes(data, mode);
    let mut buf: Vec<u8> = Vec::new();
    match std::io::Read::read_to_end(&mut reader, &mut buf) {
        Ok(_) => Some(buf),
        Err(_) => None,
    }
}

/// Relies on `sequoia_openpgp::PacketPile::from_bytes`: the pile holds the
/// packets read from the bytes, in order; each that is a signature packet is
/// handed out as `Some`, a packet of any other kind as `None`, and bytes
/// that cannot be read as packets at all are themselves `None`.
#[verifier::external_body]
fn parse_signature_packets(data: &[u8]) -> (r: Option<
    Vec<Option<sequoia_openpgp::packet::Signature>>,
>)
    ensures
        r is Some <==> packet_summary(data@) is Some,
        r matches Some(v) ==> v@.len() == packet_summary(data@)->0.len() && (forall|i: int|
            0 <= i < v@.len() ==> ((#[trigger] v@[i]) is Some <==> packet_summary(data@)->0[i])),
{
    match sequoia_openpgp::PacketPile::from_bytes(data) {
        Ok(pile) => Some(
            pile.into_children().map(
                |p| match p {
                    sequoia_openpgp::Packet::Signature(sig) => Some(sig),
                    _ => None,
                },
            ).collect(),
        ),
        Err(_) => None,
    }
}

/// Relies on `Signature::signature_alive`: the signature's creation time has
/// passed, at the current time with the default clock-skew tolerance, and
/// the signature has not expired.
#[verifier::external_body]
fn signature_alive(sig: &sequoia_openpgp::packet::Signature) -> (r: bool) {
    sig.signature_alive(None, None).is_ok()
}

/// Relies on `StandardPolicy::signature`: the signature's hash algorithm is
/// acceptable for data signatures under the standard policy — no weak or
/// legacy digest is admitted.
#[verifier::external_body]
fn signature_policy_ok(sig: &sequoia_openpgp::packet::Signature) -> (r: bool) {
    let policy = sequoia_openpgp::policy::StandardPolicy::new();
    sequoia_openpgp::policy::Policy::signature(&policy, sig, Default::default()).is_ok()
}

/// Verify the commit's detached signature against the keyring.
///
/// The canonical payload is reconstructed from the commit fields, and the
/// armored signature field is decoded in a tolerant mode. The first
/// signature packet must be alive, acceptable to the standard policy, and
/// validate over the payload under some certificate of the keyring —
/// certificates embedded in the signature are never consulted. A commit
/// without a signature field fails as malformed, since this verifier only
/// runs when a keyring is configured, as does a field whose armor or packets
/// cannot be read or that holds anything besides signature packets; every
/// failure past those is an invalid-signature failure, a field without a
/// single signature packet among them. An empty keyring authentically fails
/// every verification with an invalid signature, never a load-time error.
pub fn verify_commit(commit: &CommitInfo, keyring: &KeyringFile) -> (r: Result<
    (),
    ProcessingError,
>)
    ensures
        r is Err ==> (r->Err_0 is MalformedSignature || r->Err_0 is InvalidSignature),
        !(commit.gpgsig is Some && sig_field_readable(commit.gpgsig->0@)) ==> r == Err::<
            (),
            ProcessingError,
        >(ProcessingError::MalformedSignature),
        (commit.gpgsig is Some && sig_field_readable(commit.gpgsig->0@) && r is Err) ==> r == Err::<
            (),
            ProcessingError,
        >(ProcessingError::InvalidSignature),
        (commit.gpgsig is Some && sig_field_readable(commit.gpgsig->0@) && packet_summary(
            armored_content(commit.gpgsig->0@)->0,
        )->0.len() == 0) ==> r is Err,
        keyring@.len() == 0 ==> r is Err,
{
    let sig_field = match &commit.gpgsig {
        Some(s) => s,
        None => {
            return Err(ProcessingError::MalformedSignature);
        },
    };
    let ghost field = commit.gpgsig->0@;
    let dearmored = match armor_decode(sig_field.as_slice()) {
        Some(d) => d,
        None => {
            return Err(ProcessingError::MalformedSignature);
        },
    };
    let parsed = match parse_signature_packets(dearmored.as_slice()) {
        Some(v) => v,
        None => {
            return Err(ProcessingError::MalformedSignature);
        },
    };
    let ghost pv = parsed@;
    let ghost ps = packet_summary(armored_content(field)->0)->0;
    let total = parsed.len();
    let sigs = collect_somes(parsed);
    proof {
        lemma_somes_of_len(pv);
    }
    if sigs.len() != total {
        proof {
            let i0 = choose|i: int| 0 <= i < pv.len() && !((#[trigger] pv[i]) is Some);
            assert(!ps[i0]);
            assert(!sig_field_readable(field));
        }
        return Err(ProcessingError::MalformedSignature);
    }
    proof {
        assert forall|i: int| 0 <= i < ps.len() implies #[trigger] ps[i] by {
            assert(pv[i] is Some);
        }
        assert(sig_field_readable(field));
    }
    if sigs.len() == 0 {
        return Err(ProcessingError::InvalidSignature);
    }
    let payload = canonical_payload(commit);
    let sig = &sigs[0];
    if !signature_alive(sig) {
        return Err(ProcessingError::InvalidSignature);
    }
    if !signature_policy_ok(sig) {
        return Err(ProcessingError::InvalidSignature);
    }
    if keyring.check(sig, payload.as_slice()) {
        Ok(())
    } else {
        Err(ProcessingError::InvalidSignature)
    }
}

/// The username for ssh credentials: the one the clone URL names, or `git`
/// when it names none.
pub fn ssh_username<'a>(username_from_url: Option<&'a str>) -> (r: &'a str)
    ensures
        username_from_url is Some ==> r@ == username_from_url->0@,
        username_from_url is None ==> r@ == "git"@,
{
    match username_from_url {
        Some(u) => u,
        None => "git",
    }
}

} // verus!
