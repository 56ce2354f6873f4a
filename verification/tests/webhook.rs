use webhook_runner::error::ProcessingError;
use webhook_runner::webhook::{
    authorize_dispatch, route, ConfigError, PushCommit, PushEvent, PushRepository, RefKind,
    RouteDecision, RunnerConfig,
};

fn event(ref_name: &str, commit_ids: &[&str]) -> PushEvent {
    PushEvent {
        ref_name: ref_name.as_bytes().to_vec(),
        commits: commit_ids
            .iter()
            .map(|id| PushCommit {
                id: id.as_bytes().to_vec(),
            })
            .collect(),
        repository: PushRepository {
            clone_url: b"https://example.org/repo.git".to_vec(),
        },
    }
}

fn config() -> RunnerConfig {
    RunnerConfig {
        git_repository: None,
        ssh_key: None,
        commit_command: None,
        commit_keyring: None,
        tag_command: None,
        tag_keyring: None,
    }
}

#[test]
fn branch_with_command_and_no_keyring_dispatches_without_verification() {
    let mut c = config();
    c.commit_command = Some(b"deploy".to_vec());
    let e = event("refs/heads/main", &["1111", "2222"]);
    match route(&c, &e) {
        RouteDecision::Dispatch {
            kind,
            command,
            needs_signature,
            commit_id,
            clone_url,
        } => {
            assert_eq!(kind, RefKind::Branch);
            assert_eq!(command, b"deploy".to_vec());
            assert!(!needs_signature, "no keyring: verification must not run");
            assert_eq!(commit_id, b"2222".to_vec(), "the last commit is acted upon");
            assert_eq!(clone_url, b"https://example.org/repo.git".to_vec());
        }
        _ => panic!("expected a dispatch"),
    }
}

#[test]
fn tag_with_command_and_keyring_requires_verification() {
    let mut c = config();
    c.tag_command = Some(b"release".to_vec());
    c.tag_keyring = Some(b"/etc/keyring.pgp".to_vec());
    let e = event("refs/tags/v1", &["3333"]);
    match route(&c, &e) {
        RouteDecision::Dispatch {
            kind,
            command,
            needs_signature,
            commit_id,
            ..
        } => {
            assert_eq!(kind, RefKind::Tag);
            assert_eq!(command, b"release".to_vec());
            assert!(needs_signature, "a tag keyring demands verification");
            assert_eq!(commit_id, b"3333".to_vec());
        }
        _ => panic!("expected a dispatch"),
    }
}

#[test]
fn any_other_ref_is_invalid() {
    let mut c = config();
    c.commit_command = Some(b"deploy".to_vec());
    c.tag_command = Some(b"release".to_vec());
    let e = event("refs/pull/1/merge", &["1111"]);
    assert!(matches!(route(&c, &e), RouteDecision::InvalidRef));
}

#[test]
fn an_empty_commit_list_is_missing_commits() {
    let mut c = config();
    c.commit_command = Some(b"deploy".to_vec());
    c.tag_command = Some(b"release".to_vec());
    assert!(matches!(
        route(&c, &event("refs/heads/main", &[])),
        RouteDecision::MissingCommits
    ));
    assert!(matches!(
        route(&c, &event("refs/tags/v1", &[])),
        RouteDecision::MissingCommits
    ));
}

#[test]
fn a_matched_ref_without_a_command_is_a_no_op() {
    let c = config();
    assert!(matches!(
        route(&c, &event("refs/heads/main", &["1111"])),
        RouteDecision::NoCommand
    ));
    assert!(matches!(
        route(&c, &event("refs/tags/v1", &["1111"])),
        RouteDecision::NoCommand
    ));
}

#[test]
fn a_configured_repository_overrides_the_event_url() {
    let mut c = config();
    c.commit_command = Some(b"deploy".to_vec());
    c.git_repository = Some(b"https://mirror.example.org/repo.git".to_vec());
    match route(&c, &event("refs/heads/main", &["1111"])) {
        RouteDecision::Dispatch { clone_url, .. } => {
            assert_eq!(clone_url, b"https://mirror.example.org/repo.git".to_vec());
        }
        _ => panic!("expected a dispatch"),
    }
}

#[test]
fn validation_rejects_a_keyring_without_a_command() {
    let mut c = config();
    c.tag_keyring = Some(b"/etc/tag.pgp".to_vec());
    assert_eq!(c.validate(), Err(ConfigError::TagKeyringWithoutCommand));

    let mut c = config();
    c.commit_keyring = Some(b"/etc/commit.pgp".to_vec());
    assert_eq!(c.validate(), Err(ConfigError::CommitKeyringWithoutCommand));

    let mut c = config();
    c.commit_keyring = Some(b"/etc/commit.pgp".to_vec());
    c.commit_command = Some(b"deploy".to_vec());
    assert_eq!(c.validate(), Ok(()));
}

#[test]
fn validation_rejects_an_ssh_url_without_a_key() {
    let mut c = config();
    c.git_repository = Some(b"git@example.org:me/repo".to_vec());
    assert_eq!(c.validate(), Err(ConfigError::SshRepositoryWithoutKey));
    c.ssh_key = Some(b"/home/me/.ssh/id_ed25519".to_vec());
    assert_eq!(c.validate(), Ok(()));
}

#[test]
fn dispatch_requires_integrity_and_verification() {
    let dispatch = |needs_signature: bool| RouteDecision::Dispatch {
        kind: RefKind::Branch,
        command: b"deploy".to_vec(),
        needs_signature,
        commit_id: b"1111".to_vec(),
        clone_url: b"https://example.org/repo.git".to_vec(),
    };
    let ok: Option<Result<(), ProcessingError>> = Some(Ok(()));
    let failed: Option<Result<(), ProcessingError>> =
        Some(Err(ProcessingError::InvalidSignature));
    let skipped: Option<Result<(), ProcessingError>> = None;

    // Without a keyring, integrity alone authorizes.
    assert!(authorize_dispatch(&dispatch(false), &ok, &skipped));
    // A keyring demands a verification that ran and succeeded.
    assert!(authorize_dispatch(&dispatch(true), &ok, &ok));
    assert!(!authorize_dispatch(&dispatch(true), &ok, &failed));
    assert!(!authorize_dispatch(&dispatch(true), &ok, &skipped));
    // A failed or skipped integrity check never dispatches.
    assert!(!authorize_dispatch(
        &dispatch(false),
        &Some(Err(ProcessingError::GitOperation)),
        &skipped
    ));
    assert!(!authorize_dispatch(&dispatch(false), &skipped, &skipped));
    // Nothing but a routed dispatch is authorized.
    assert!(!authorize_dispatch(&RouteDecision::NoCommand, &ok, &ok));
    assert!(!authorize_dispatch(&RouteDecision::InvalidRef, &ok, &ok));
}
