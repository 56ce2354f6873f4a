use webhook_runner::error::{HeaderParseError, ProcessingError};
use webhook_runner::signature::{authenticate, verify_header, AuthDecision, HubSignature256, Key};

// {{{ HubSignature256 decoding

#[test]
fn can_decode_signature_header_from_str() {
    HubSignature256::try_from(
        "sha256=2ed61cca0a6e94c01c51ab6d396b4308f12fe39d0daffc5738fab9285ec56f9c",
    )
    .expect("signature was not correctly parsed");
}

#[test]
fn will_error_on_invalid_length() {
    assert!(
        HubSignature256::try_from(
            "sha256=2ed61cca0a6e94c01c51ab6d396b4308f12fe39d0daffc5738fa5ec56f9",
        )
        .is_err(),
        "length should be too short"
    );
    assert!(
        HubSignature256::try_from(
            "sha256=2ed61cca0a6e94c01c51ab6d396b4308f12fe39d0daffc5738fab9285ec56f9ca",
        )
        .is_err(),
        "length should be too long"
    );
    let err = HubSignature256::try_from("");
    match err {
        Err(HeaderParseError::Length { .. }) => (),
        e => {
            assert!(e.is_err(), "length should be too short");
            e.expect("incorrect error variant from HubSignature256::try_from");
        }
    }
}

#[test]
fn will_error_on_malformed_header() {
    let err = HubSignature256::try_from(
        "sha255=2ed61cca0a6e94c01c51ab6d396b4308f12fe39d0daffc5738fab9285ec56f9c",
    );
    match err {
        Err(HeaderParseError::Content { .. }) => (),
        e => {
            assert!(e.is_err(), "content should be invalid");
            e.expect("incorrect error variant from HubSignature256::try_from");
        }
    }
}

#[test]
fn will_error_on_invalid_hex() {
    let err = HubSignature256::try_from(
        "sha256=2gd61cca0a6e94c01c51ab6d396b4308f12fe39d0daffc5738fab9285ec56f9c",
    );
    match err {
        Err(HeaderParseError::HexDecode) => (),
        e => {
            assert!(e.is_err(), "content should be invalid");
            e.expect("incorrect error variant from HubSignature256::try_from");
        }
    }
}

#[test]
fn length_seventy_or_seventy_two_fails_on_length_regardless_of_content() {
    // One digit short: 70 bytes, otherwise valid.
    let seventy = "sha256=2ed61cca0a6e94c01c51ab6d396b4308f12fe39d0daffc5738fab9285ec56f9";
    assert_eq!(seventy.len(), 70);
    assert!(matches!(
        HubSignature256::try_from(seventy),
        Err(HeaderParseError::Length {
            length: 70,
            intended: 71
        })
    ));
    // One digit long: 72 bytes, otherwise valid.
    let seventy_two = "sha256=2ed61cca0a6e94c01c51ab6d396b4308f12fe39d0daffc5738fab9285ec56f9c9";
    assert_eq!(seventy_two.len(), 72);
    assert!(matches!(
        HubSignature256::try_from(seventy_two),
        Err(HeaderParseError::Length {
            length: 72,
            intended: 71
        })
    ));
    // The length decides before any look at the content.
    let junk = "!".repeat(70);
    assert!(matches!(
        HubSignature256::try_from(junk.as_str()),
        Err(HeaderParseError::Length {
            length: 70,
            intended: 71
        })
    ));
}

#[test]
fn content_error_carries_the_offending_header() {
    let value = "sha255=2ed61cca0a6e94c01c51ab6d396b4308f12fe39d0daffc5738fab9285ec56f9c";
    match HubSignature256::try_from(value) {
        Err(HeaderParseError::Content { header }) => assert_eq!(header, value),
        Err(e) => panic!("wrong error variant: {e:?}"),
        Ok(_) => panic!("parse should fail on a bad prefix"),
    }
}

#[test]
fn uppercase_hex_digits_are_rejected() {
    let err = HubSignature256::try_from(
        "sha256=2ED61CCA0A6E94C01C51AB6D396B4308F12FE39D0DAFFC5738FAB9285EC56F9C",
    );
    assert!(matches!(err, Err(HeaderParseError::HexDecode)));
}

// }}}

// {{{ HubSignature256 verifying

#[test]
fn can_verify_valid_signature() {
    let signature = HubSignature256::try_from(
        "sha256=aa5f1f4ddf25689f59c16b7caef668db08d6c2656d85c899df8457d32d771d72",
    )
    .expect("unable to parse signature header");
    let key = Key::new("testingkey");
    let test_body = b"hello";
    signature
        .verify(&key, test_body)
        .expect("invalid signature verification");
}

#[test]
fn will_error_on_incorrect_signature() {
    let signature = HubSignature256::try_from(
        "sha256=aa5f1f4ddf25689f59c16b7caef668db08d6c2656d85c899df8457d32d771d73",
    )
    .expect("unable to parse signature header");
    let key = Key::new("testingkey");
    let test_body = b"hello";
    assert!(
        signature.verify(&key, test_body).is_err(),
        "didn't error on modified signature"
    );

    let signature = HubSignature256::try_from(
        "sha256=aa5f1f4ddf25689f59c16b7caef668db08d6c2656d85c899df8457d32d771d72",
    )
    .expect("unable to parse signature header");
    let key = Key::new("testingkey");
    let test_body = b"heloo";
    assert!(
        signature.verify(&key, test_body).is_err(),
        "didn't error on modified body"
    );
}

#[test]
fn verify_header_accepts_exactly_the_authentic_header() {
    let key = Key::new("testingkey");
    let good = "sha256=aa5f1f4ddf25689f59c16b7caef668db08d6c2656d85c899df8457d32d771d72";
    assert!(verify_header(good, &key, b"hello").is_ok());
    // Any flipped hex digit must fail.
    let flipped = "sha256=ba5f1f4ddf25689f59c16b7caef668db08d6c2656d85c899df8457d32d771d72";
    assert!(verify_header(flipped, &key, b"hello").is_err());
    // A mutated body must fail against the same header.
    assert!(verify_header(good, &key, b"heloo").is_err());
    // A header that does not parse fails as a parse error, not a digest
    // mismatch.
    assert!(matches!(
        verify_header("sha256=short", &key, b"hello"),
        Err(ProcessingError::HeaderParse { .. })
    ));
}

#[test]
fn encode_round_trips_a_parsed_header() {
    let header = "sha256=aa5f1f4ddf25689f59c16b7caef668db08d6c2656d85c899df8457d32d771d72";
    let signature = HubSignature256::try_from(header).expect("unable to parse signature header");
    assert_eq!(signature.encode(), header.as_bytes().to_vec());
}

// }}}

// {{{ authentication gate

#[test]
fn authenticate_passes_everything_without_a_secret() {
    let decision = authenticate(None, None, b"any body");
    assert_eq!(decision, AuthDecision::Proceed);
    let decision = authenticate(None, Some("not even a header"), b"any body");
    assert_eq!(decision, AuthDecision::Proceed);
}

#[test]
fn authenticate_rejects_a_missing_header() {
    let key = Key::new("testingkey");
    let decision = authenticate(Some(&key), None, b"hello");
    assert_eq!(decision, AuthDecision::Unauthorized);
}

#[test]
fn authenticate_reports_an_unparsable_header_as_server_error() {
    let key = Key::new("testingkey");
    let decision = authenticate(Some(&key), Some("sha256=tooshort"), b"hello");
    assert_eq!(decision, AuthDecision::ServerError);
}

#[test]
fn authenticate_rejects_a_wrong_digest() {
    let key = Key::new("testingkey");
    let wrong = "sha256=aa5f1f4ddf25689f59c16b7caef668db08d6c2656d85c899df8457d32d771d73";
    let decision = authenticate(Some(&key), Some(wrong), b"hello");
    assert_eq!(decision, AuthDecision::Unauthorized);
}

#[test]
fn authenticate_passes_the_authentic_header() {
    let key = Key::new("testingkey");
    let good = "sha256=aa5f1f4ddf25689f59c16b7caef668db08d6c2656d85c899df8457d32d771d72";
    let decision = authenticate(Some(&key), Some(good), b"hello");
    assert_eq!(decision, AuthDecision::Proceed);
}

// }}}
