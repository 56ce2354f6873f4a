//! Routing of push events to the policy configured for their ref type.
//!
//! A ref under `refs/heads/` selects the commit policy, one under
//! `refs/tags/` the tag policy, and any other ref is invalid. A policy is a
//! command with an optional keyring; when the keyring is present, dispatch
//! additionally requires commit-signature verification to succeed.

use vstd::prelude::*;

use crate::error::ProcessingError;

verus! {

/// The bytes of `refs/heads/`.
pub open spec fn heads_prefix() -> Seq<u8> {
    seq![114u8, 101u8, 102u8, 115u8, 47u8, 104u8, 101u8, 97u8, 100u8, 115u8, 47u8]
}

/// The bytes of `refs/tags/`.
pub open spec fn tags_prefix() -> Seq<u8> {
    seq![114u8, 101u8, 102u8, 115u8, 47u8, 116u8, 97u8, 103u8, 115u8, 47u8]
}

/// `s` begins with `prefix`.
pub open spec fn starts_with(s: Seq<u8>, prefix: Seq<u8>) -> bool {
    s.len() >= prefix.len() && s.subrange(0, prefix.len() as int) == prefix
}

/// A branch ref: one under `refs/heads/`.
pub open spec fn is_branch_ref(r: Seq<u8>) -> bool {
    starts_with(r, heads_prefix())
}

/// A tag ref: one under `refs/tags/`.
pub open spec fn is_tag_ref(r: Seq<u8>) -> bool {
    starts_with(r, tags_prefix())
}

/// Byte-wise prefix test.
fn starts_with_bytes(s: &[u8], prefix: &[u8]) -> (r: bool)
    ensures
        r == starts_with(s@, prefix@),
{
    if s.len() < prefix.len() {
        proof {
            assert(!starts_with(s@, prefix@));
        }
        return false;
    }
    let mut i: usize = 0;
    while i < prefix.len()
        invariant
            i <= prefix@.len() <= s@.len(),
            forall|j: int| 0 <= j < i ==> s@[j] == prefix@[j],
        decreases prefix@.len() - i,
    {
        if s[i] != prefix[i] {
            proof {
                assert(s@.subrange(0, prefix@.len() as int)[i as int] != prefix@[i as int]);
            }
            return false;
        }
        i = i + 1;
    }
    proof {
        assert(s@.subrange(0, prefix@.len() as int) =~= prefix@);
    }
    true
}

/// The ref `refs/heads/…` begins with.
fn heads_prefix_bytes() -> (r: Vec<u8>)
    ensures
        r@ == heads_prefix(),
{
    let mut out: Vec<u8> = Vec::new();
    out.push(114);
    out.push(101);
    out.push(102);
    out.push(115);
    out.push(47);
    out.push(104);
    out.push(101);
    out.push(97);
    out.push(100);
    out.push(115);
    out.push(47);
    proof {
        assert(out@ =~= heads_prefix());
    }
    out
}

/// The ref `refs/tags/…` begins with.
fn tags_prefix_bytes() -> (r: Vec<u8>)
    ensures
        r@ == tags_prefix(),
{
    let mut out: Vec<u8> = Vec::new();
    out.push(114);
    out.push(101);
    out.push(102);
    out.push(115);
    out.push(47);
    out.push(116);
    out.push(97);
    out.push(103);
    out.push(115);
    out.push(47);
    proof {
        assert(out@ =~= tags_prefix());
    }
    out
}

/// One commit of a push event: the id as git spells it, in hex.
pub struct PushCommit {
    pub id: Vec<u8>,
}

/// The repository a push event points at.
pub struct PushRepository {
    pub clone_url: Vec<u8>,
}

/// A push event: the pushed ref, the ordered commit list, and the
/// repository. Only the last commit of the list is acted upon.
pub struct PushEvent {
    pub ref_name: Vec<u8>,
    pub commits: Vec<PushCommit>,
    pub repository: PushRepository,
}

/// The operator's configuration, built once at startup and immutable
/// afterwards: an optional clone-URL override, an optional ssh key path, and
/// per ref type an optional command with an optional keyring file path.
pub struct RunnerConfig {
    pub git_repository: Option<Vec<u8>>,
    pub ssh_key: Option<Vec<u8>>,
    pub commit_command: Option<Vec<u8>>,
    pub commit_keyring: Option<Vec<u8>>,
    pub tag_command: Option<Vec<u8>>,
    pub tag_keyring: Option<Vec<u8>>,
}

/// A configuration rejected at startup.
#[derive(Debug, PartialEq, Eq)]
pub enum ConfigError {
    /// A tag keyring is configured but no tag command.
    TagKeyringWithoutCommand,
    /// A commit keyring is configured but no commit command.
    CommitKeyringWithoutCommand,
    /// The repository URL calls for ssh authentication but no ssh key is
    /// configured.
    SshRepositoryWithoutKey,
}

/// `s` holds the byte `b` somewhere.
pub open spec fn contains_byte(s: Seq<u8>, b: u8) -> bool {
    exists|i: int| 0 <= i < s.len() && s[i] == b
}

/// Byte-wise search for `b` in `s`.
fn contains_byte_exec(s: &[u8], b: u8) -> (r: bool)
    ensures
        r == contains_byte(s@, b),
{
    let mut i: usize = 0;
    while i < s.len()
        invariant
            i <= s@.len(),
            forall|j: int| 0 <= j < i ==> s@[j] != b,
        decreases s@.len() - i,
    {
        if s[i] == b {
            return true;
        }
        i = i + 1;
    }
    false
}

/// A configuration is valid when every configured keyring has a command for
/// the same ref type, and an ssh-style repository URL (one holding `@`) has
/// an ssh key.
pub open spec fn config_valid(c: RunnerConfig) -> bool {
    &&& (c.tag_keyring is Some ==> c.tag_command is Some)
    &&& (c.commit_keyring is Some ==> c.commit_command is Some)
    &&& ((c.git_repository is Some && contains_byte(c.git_repository->0@, 64))
        ==> c.ssh_key is Some)
}

impl RunnerConfig {
    /// Validate the configuration at startup, before any traffic is served:
    /// a keyring without a command for the same ref type, or an ssh-style
    /// repository URL without an ssh key, rejects the whole configuration.
    pub fn validate(&self) -> (r: Result<(), ConfigError>)
        ensures
            r is Ok <==> config_valid(*self),
            r == Err::<(), ConfigError>(ConfigError::TagKeyringWithoutCommand) <==> (
            self.tag_keyring is Some && self.tag_command is None),
            r == Err::<(), ConfigError>(ConfigError::CommitKeyringWithoutCommand) <==> (!(
            self.tag_keyring is Some && self.tag_command is None) && self.commit_keyring is Some
                && self.commit_command is None),
    {
        if self.tag_keyring.is_some() && self.tag_command.is_none() {
            return Err(ConfigError::TagKeyringWithoutCommand);
        }
        if self.commit_keyring.is_some() && self.commit_command.is_none() {
            return Err(ConfigError::CommitKeyringWithoutCommand);
        }
        if let Some(url) = &self.git_repository {
            if contains_byte_exec(url.as_slice(), 64) && self.ssh_key.is_none() {
                return Err(ConfigError::SshRepositoryWithoutKey);
            }
        }
        Ok(())
    }
}

/// The ref type a push event selected.
#[derive(Debug, Clone, Copy, PartialEq, Eq, Structural)]
pub enum RefKind {
    Branch,
    Tag,
}

/// What routing one push event decided.
pub enum RouteDecision {
    /// A policy matched: clone `clone_url`, check out `commit_id`, and — when
    /// `needs_signature` holds, after the commit's signature verifies against
    /// the keyring of this ref type — run `command`.
    Dispatch {
        kind: RefKind,
        command: Vec<u8>,
        needs_signature: bool,
        commit_id: Vec<u8>,
        clone_url: Vec<u8>,
    },
    /// The matched ref type has no command configured: the event succeeds
    /// trivially with no action.
    NoCommand,
    /// The ref is neither a branch nor a tag ref.
    InvalidRef,
    /// The event carries no commits.
    MissingCommits,
}

/// Route one push event against the configuration.
///
/// `refs/heads/…` selects the commit policy and `refs/tags/…` the tag
/// policy; any other ref fails as invalid. A matched policy without a
/// command ends routing successfully with no action. Otherwise the event
/// must carry at least one commit, and the last commit of the list is the
/// one acted upon; the clone URL is the configured override when one is set,
/// else the URL the event names. Verification is required exactly when the
/// matched policy has a keyring configured.
pub fn route(config: &RunnerConfig, event: &PushEvent) -> (r: RouteDecision)
    ensures
        r is InvalidRef <==> (!is_branch_ref(event.ref_name@) && !is_tag_ref(event.ref_name@)),
        r is NoCommand <==> ((is_branch_ref(event.ref_name@) && config.commit_command is None) || (
        is_tag_ref(event.ref_name@) && !is_branch_ref(event.ref_name@)
            && config.tag_command is None)),
        r is MissingCommits <==> (((is_branch_ref(event.ref_name@)
            && config.commit_command is Some) || (is_tag_ref(event.ref_name@) && !is_branch_ref(
            event.ref_name@,
        ) && config.tag_command is Some)) && event.commits@.len() == 0),
        r matches RouteDecision::Dispatch { kind, command, needs_signature, commit_id, clone_url }
            ==> {
            &&& event.commits@.len() > 0
            &&& commit_id@ == event.commits@.last().id@
            &&& (is_branch_ref(event.ref_name@) ==> kind is Branch
                && config.commit_command is Some && command@ == config.commit_command->0@
                && needs_signature == (config.commit_keyring is Some))
            &&& (!is_branch_ref(event.ref_name@) ==> kind is Tag && is_tag_ref(event.ref_name@)
                && config.tag_command is Some && command@ == config.tag_command->0@
                && needs_signature == (config.tag_keyring is Some))
            &&& (config.git_repository is Some ==> clone_url@ == config.git_repository->0@)
            &&& (config.git_repository is None ==> clone_url@ == event.repository.clone_url@)
        },
{
    let heads = heads_prefix_bytes();
    let tags = tags_prefix_bytes();
    let branch = starts_with_bytes(event.ref_name.as_slice(), heads.as_slice());
    let tag = starts_with_bytes(event.ref_name.as_slice(), tags.as_slice());
    let kind: RefKind;
    let command: &Vec<u8>;
    let needs_signature: bool;
    if branch {
        match &config.commit_command {
            Some(c) => {
                kind = RefKind::Branch;
                command = c;
                needs_signature = config.commit_keyring.is_some();
            },
            None => {
                return RouteDecision::NoCommand;
            },
        }
    } else if tag {
        match &config.tag_command {
            Some(c) => {
                kind = RefKind::Tag;
                command = c;
                needs_signature = config.tag_keyring.is_some();
            },
            None => {
                return RouteDecision::NoCommand;
            },
        }
    } else {
        return RouteDecision::InvalidRef;
    }
    if event.commits.len() == 0 {
        return RouteDecision::MissingCommits;
    }
    let last = &event.commits[event.commits.len() - 1];
    let mut commit_id: Vec<u8> = Vec::new();
    push_all_bytes(&mut commit_id, last.id.as_slice());
    let mut command_out: Vec<u8> = Vec::new();
    push_all_bytes(&mut command_out, command.as_slice());
    let mut clone_url: Vec<u8> = Vec::new();
    match &config.git_repository {
        Some(url) => push_all_bytes(&mut clone_url, url.as_slice()),
        None => push_all_bytes(&mut clone_url, event.repository.clone_url.as_slice()),
    }
    proof {
        assert(commit_id@ =~= event.commits@.last().id@);
        assert(command_out@ =~= command@);
        if config.git_repository is Some {
            assert(clone_url@ =~= config.git_repository->0@);
        } else {
            assert(clone_url@ =~= event.repository.clone_url@);
        }
    }
    RouteDecision::Dispatch { kind, command: command_out, needs_signature, commit_id, clone_url }
}

/// Append all of `src` to `out`.
fn push_all_bytes(out: &mut Vec<u8>, src: &[u8])
    ensures
        final(out)@ == old(out)@ + src@,
{
    let mut i: usize = 0;
    while i < src.len()
        invariant
            i <= src@.len(),
            out@ == old(out)@ + src@.take(i as int),
        decreases src@.len() - i,
    {
        out.push(src[i]);
        proof {
            assert(old(out)@ + src@.take(i + 1 as int) =~= (old(out)@ + src@.take(i as int)).push(
                src@[i as int],
            ));
        }
        i = i + 1;
    }
    proof {
        assert(src@.take(i as int) =~= src@);
    }
}

/// Whether a dispatch is authorized: routing matched a policy with a
/// command, the fetched checkout passed the integrity check, and — when the
/// policy carries a keyring — signature verification ran and succeeded.
pub open spec fn dispatch_authorized_spec(
    decision: RouteDecision,
    integrity: Option<Result<(), ProcessingError>>,
    verification: Option<Result<(), ProcessingError>>,
) -> bool {
    match decision {
        RouteDecision::Dispatch { needs_signature, .. } => {
            &&& integrity matches Some(i) && i is Ok
            &&& (needs_signature ==> (verification matches Some(v) && v is Ok))
        },
        _ => false,
    }
}

/// The core's authorization decision: the configured command may run only
/// for a routed dispatch whose checkout passed the integrity check and, when
/// the matched policy carries a keyring, whose commit signature verified. A
/// failed or skipped verification never dispatches.
pub fn authorize_dispatch(
    decision: &RouteDecision,
    integrity: &Option<Result<(), ProcessingError>>,
    verification: &Option<Result<(), ProcessingError>>,
) -> (r: bool)
    ensures
        r == dispatch_authorized_spec(*decision, *integrity, *verification),
{
    let needs_signature = match decision {
        RouteDecision::Dispatch { needs_signature, .. } => *needs_signature,
        _ => {
            return false;
        },
    };
    let integrity_ok = match integrity {
        Some(res) => match res {
            Ok(u) => true,
            Err(e) => false,
        },
        None => false,
    };
    let verification_ok = match verification {
        Some(res) => match res {
            Ok(u) => true,
            Err(e) => false,
        },
        None => false,
    };
    integrity_ok && (!needs_signature || verification_ok)
}

} // verus!
