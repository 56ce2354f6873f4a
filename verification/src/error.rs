//! Error types for webhook processing.
//!
//! Every per-event failure is a structured value from one of these enums;
//! a bad event never aborts the process.

use vstd::prelude::*;

verus! {

/// Failure to parse an `X-Hub-Signature-256` header value.
///
/// The three variants are mutually exclusive: a header of the wrong length
/// always fails with `Length`, one of the right length but without the
/// `sha256=` prefix fails with `Content`, and one that is malformed only in
/// its hex digits fails with `HexDecode`.
#[derive(Debug, PartialEq, Eq)]
pub enum HeaderParseError {
    /// The header was malformed: the `sha256=` prefix was missing.
    Content { header: String },
    /// The header value had the wrong length.
    Length { length: usize, intended: usize },
    /// A byte where a lowercase hex digit was expected.
    HexDecode,
}

/// Failure while processing one webhook event.
#[derive(Debug, PartialEq, Eq)]
pub enum ProcessingError {
    /// A worker thread could not be joined.
    Join,
    /// An input/output error while running an external command.
    Io,
    /// An external command returned a nonzero exit code.
    Command { exit_code: i32 },
    /// A timeout expired before an external operation finished.
    Timeout,
    /// The checked-out object id is not the id the event requested.
    RepositoryIntegrity { actual: Vec<u8>, expected: Vec<u8> },
    /// A git operation on the repository failed.
    GitOperation,
    /// Loading certificates from a keyring file failed.
    InvalidKeyringFile,
    /// The commit carries no signature field, or it could not be read as one.
    MalformedSignature,
    /// The commit's detached signature did not verify against the keyring.
    InvalidSignature,
    /// The signature header could not be parsed.
    HeaderParse { source: HeaderParseError },
    /// The keyed digest of the body did not match the signature header.
    HmacVerification,
}

impl ProcessingError {
    /// Accept an exit status when its code is zero, or when no code could be
    /// obtained at all; reject any nonzero code.
    pub fn assert_exit_status(exit_code: Option<i32>) -> (r: Result<(), ProcessingError>)
        ensures
            r is Ok <==> (exit_code is None || exit_code == Some(0i32)),
            r is Err ==> r->Err_0 == (ProcessingError::Command { exit_code: exit_code->0 }),
    {
        if let Some(n) = exit_code {
            if n != 0 {
                return Err(ProcessingError::Command { exit_code: n });
            }
        }
        Ok(())
    }
}

} // verus!
