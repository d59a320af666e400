use secret_agent::auth::{authorize, credential_header, find_credential, Decision, DenyReason, Header};

fn header(name: &str, value: &[u8]) -> Header {
    Header { name: name.to_string(), value: value.to_vec() }
}

#[test]
fn correct_credential_is_allowed() {
    let headers = vec![header("X-API-Key", b"s3cr3t")];
    assert_eq!(authorize(&headers, "s3cr3t"), Decision::Allowed);
}

#[test]
fn header_name_is_matched_in_any_case() {
    for name in ["x-api-key", "X-API-KEY", "X-Api-Key", "x-API-kEY"] {
        let headers = vec![header(name, b"s3cr3t")];
        assert_eq!(authorize(&headers, "s3cr3t"), Decision::Allowed, "{}", name);
    }
    assert_eq!(credential_header(), "x-api-key");
}

#[test]
fn no_credential_header_is_missing() {
    assert_eq!(authorize(&vec![], "s3cr3t"), Decision::Denied(DenyReason::Missing));
    let headers = vec![
        header("Host", b"agent.test"),
        header("Authorization", b"s3cr3t"),
        header("X-API-Keys", b"s3cr3t"),
        header("X_API_Key", b"s3cr3t"),
        header("x-api-key ", b"s3cr3t"),
        header("", b"s3cr3t"),
    ];
    assert_eq!(authorize(&headers, "s3cr3t"), Decision::Denied(DenyReason::Missing));
}

#[test]
fn wrong_credential_is_invalid() {
    for value in [&b"wrong"[..], b"S3CR3T", b"s3cr3", b"s3cr3tt", b"\xff\xfe", b"s3cr3t\0"] {
        let headers = vec![header("X-API-Key", value)];
        assert_eq!(authorize(&headers, "s3cr3t"), Decision::Denied(DenyReason::Invalid));
    }
}

#[test]
fn empty_credential_is_invalid() {
    let headers = vec![header("X-API-Key", b"")];
    assert_eq!(authorize(&headers, "s3cr3t"), Decision::Denied(DenyReason::Invalid));
}

#[test]
fn white_space_around_the_credential_is_invalid() {
    for value in [&b"s3cr3t "[..], b" s3cr3t", b"s3cr3t\n", b"s3cr3t\t", b"s3cr3t\r\n"] {
        let headers = vec![header("X-API-Key", value)];
        assert_eq!(authorize(&headers, "s3cr3t"), Decision::Denied(DenyReason::Invalid));
    }
}

#[test]
fn credential_with_white_space_is_matched_as_it_is() {
    let headers = vec![header("X-API-Key", b"pass phrase ")];
    assert_eq!(authorize(&headers, "pass phrase "), Decision::Allowed);
    assert_eq!(authorize(&headers, "pass phrase"), Decision::Denied(DenyReason::Invalid));
}

#[test]
fn credential_is_matched_by_its_utf8_bytes() {
    let headers = vec![header("X-API-Key", "schlüssel".as_bytes())];
    assert_eq!(authorize(&headers, "schlüssel"), Decision::Allowed);
    let latin1 = vec![header("X-API-Key", b"schl\xfcssel")];
    assert_eq!(authorize(&latin1, "schlüssel"), Decision::Denied(DenyReason::Invalid));
}

#[test]
fn first_credential_header_decides() {
    let good_first = vec![header("X-API-Key", b"s3cr3t"), header("X-API-Key", b"wrong")];
    assert_eq!(authorize(&good_first, "s3cr3t"), Decision::Allowed);
    let bad_first = vec![header("x-api-key", b"wrong"), header("X-API-Key", b"s3cr3t")];
    assert_eq!(authorize(&bad_first, "s3cr3t"), Decision::Denied(DenyReason::Invalid));
}

#[test]
fn other_headers_do_not_matter() {
    let headers = vec![
        header("Host", b"agent.test"),
        header("Accept", b"application/json"),
        header("X-Api-Key", b"s3cr3t"),
        header("User-Agent", b"test"),
    ];
    assert_eq!(authorize(&headers, "s3cr3t"), Decision::Allowed);
    assert_eq!(find_credential(&headers), Some(2));
    assert_eq!(find_credential(&headers[..2].to_vec()), None);
}

#[test]
fn empty_expected_credential_is_met_by_an_empty_value_only() {
    assert_eq!(authorize(&vec![header("X-API-Key", b"")], ""), Decision::Allowed);
    assert_eq!(authorize(&vec![header("X-API-Key", b"x")], ""), Decision::Denied(DenyReason::Invalid));
    assert_eq!(authorize(&vec![], ""), Decision::Denied(DenyReason::Missing));
}
