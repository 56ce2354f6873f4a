use webhook_runner::error::ProcessingError;
use webhook_runner::repository::{
    canonical_payload, check_integrity, format_signature, ssh_username, CommitInfo, GitIdent,
};

fn ident(name: &str, email: &str, seconds: i64, offset_minutes: i32) -> GitIdent {
    GitIdent {
        name: name.as_bytes().to_vec(),
        email: email.as_bytes().to_vec(),
        seconds,
        offset_minutes,
    }
}

#[test]
fn identity_line_spells_git_format() {
    let line = format_signature(
        b"author",
        &ident("Ryan", "ryan@example.com", 1700000000, -330),
    );
    assert_eq!(line, b"author Ryan <ryan@example.com> 1700000000 -0530".to_vec());

    let line = format_signature(b"committer", &ident("Co Worker", "co@example.org", 90, 90));
    assert_eq!(line, b"committer Co Worker <co@example.org> 90 +0130".to_vec());

    let line = format_signature(b"author", &ident("A", "a@b", -5, 0));
    assert_eq!(line, b"author A <a@b> -5 +0000".to_vec());
}

#[test]
fn canonical_payload_is_byte_exact() {
    let commit = CommitInfo {
        tree_id: b"4b825dc642cb6eb9a060e54bf8d69288fbee4904".to_vec(),
        parent_ids: vec![
            b"1111111111111111111111111111111111111111".to_vec(),
            b"2222222222222222222222222222222222222222".to_vec(),
        ],
        author: ident("Ryan", "ryan@example.com", 1700000000, -330),
        committer: ident("Co Worker", "co@example.org", 1700000001, 90),
        message: b"Subject\n\nBody\r\nMore\n".to_vec(),
        gpgsig: None,
    };
    let expected = "tree 4b825dc642cb6eb9a060e54bf8d69288fbee4904\n\
parent 1111111111111111111111111111111111111111\n\
parent 2222222222222222222222222222222222222222\n\
author Ryan <ryan@example.com> 1700000000 -0530\n\
committer Co Worker <co@example.org> 1700000001 +0130\n\
\nSubject\n\nBody\nMore\n";
    assert_eq!(canonical_payload(&commit), expected.as_bytes().to_vec());
}

#[test]
fn canonical_payload_message_edges() {
    let base = |message: &[u8]| CommitInfo {
        tree_id: b"4b825dc642cb6eb9a060e54bf8d69288fbee4904".to_vec(),
        parent_ids: vec![],
        author: ident("A", "a@b", 0, 0),
        committer: ident("A", "a@b", 0, 0),
        message: message.to_vec(),
        gpgsig: None,
    };
    let head = "tree 4b825dc642cb6eb9a060e54bf8d69288fbee4904\n\
author A <a@b> 0 +0000\n\
committer A <a@b> 0 +0000\n\n";
    // An empty message contributes no line at all.
    assert_eq!(canonical_payload(&base(b"")), head.as_bytes().to_vec());
    // A message of one empty line contributes exactly that line.
    assert_eq!(
        canonical_payload(&base(b"\n")),
        format!("{head}\n").as_bytes().to_vec()
    );
    // With or without a final newline, the message ends in exactly one.
    assert_eq!(
        canonical_payload(&base(b"msg")),
        format!("{head}msg\n").as_bytes().to_vec()
    );
    assert_eq!(
        canonical_payload(&base(b"msg\n")),
        format!("{head}msg\n").as_bytes().to_vec()
    );
    // A lone carriage return is kept; only one before a line feed is dropped.
    assert_eq!(
        canonical_payload(&base(b"a\rb\r\nc")),
        format!("{head}a\rb\nc\n").as_bytes().to_vec()
    );
}

#[test]
fn integrity_accepts_exactly_the_requested_object() {
    let id = b"4b825dc642cb6eb9a060e54bf8d69288fbee4904";
    assert!(check_integrity(id, id).is_ok());
    // The requested id may spell the same object in uppercase.
    let upper = b"4B825DC642CB6EB9A060E54BF8D69288FBEE4904";
    assert!(check_integrity(id, upper).is_ok());
}

#[test]
fn integrity_mismatch_carries_both_ids() {
    let actual = b"4b825dc642cb6eb9a060e54bf8d69288fbee4904";
    let expected = b"1111111111111111111111111111111111111111";
    match check_integrity(actual, expected) {
        Err(ProcessingError::RepositoryIntegrity {
            actual: a,
            expected: e,
        }) => {
            assert_eq!(a, actual.to_vec());
            assert_eq!(e, expected.to_vec());
        }
        r => panic!("expected an integrity failure, got {r:?}"),
    }
}

#[test]
fn integrity_rejects_anything_but_a_full_hex_id() {
    let actual = b"4b825dc642cb6eb9a060e54bf8d69288fbee4904";
    // A short hash can never equal the resolved full id.
    assert!(matches!(
        check_integrity(actual, b"4b825dc6"),
        Err(ProcessingError::GitOperation)
    ));
    // A branch name is not an object id.
    assert!(matches!(
        check_integrity(actual, b"main"),
        Err(ProcessingError::GitOperation)
    ));
    // A full-length string with a non-hex byte is not an object id.
    assert!(matches!(
        check_integrity(actual, b"zb825dc642cb6eb9a060e54bf8d69288fbee4904"),
        Err(ProcessingError::GitOperation)
    ));
}

#[test]
fn ssh_username_defaults_to_git() {
    assert_eq!(ssh_username(Some("alice")), "alice");
    assert_eq!(ssh_username(None), "git");
}

#[test]
fn exit_status_zero_or_absent_is_success() {
    assert!(ProcessingError::assert_exit_status(None).is_ok());
    assert!(ProcessingError::assert_exit_status(Some(0)).is_ok());
    assert!(matches!(
        ProcessingError::assert_exit_status(Some(3)),
        Err(ProcessingError::Command { exit_code: 3 })
    ));
}
