use jirasync::credentials::{ascii_only, find_credentials, netrc_lookup, Credentials, Machine};
use jirasync::error::ReportError;

const NETRC: &str = "machine jira.zephyrproject.org login alice password s3cret\n\
machine runtimeco.atlassian.net\n  login bob\n  password hunter2 port 443\n\
machine nopass.example login carol\n\
machine jira.zephyrproject.org login mallory password other\n";

#[test]
fn netrc_lookup_finds_the_first_entry_of_the_host() {
    assert_eq!(
        netrc_lookup(NETRC.as_bytes(), "jira.zephyrproject.org"),
        Ok(Credentials::Basic("alice".to_string(), "s3cret".to_string()))
    );
    assert_eq!(
        netrc_lookup(NETRC.as_bytes(), "runtimeco.atlassian.net"),
        Ok(Credentials::Basic("bob".to_string(), "hunter2".to_string()))
    );
}

#[test]
fn netrc_lookup_finds_nothing_for_an_unknown_host() {
    assert_eq!(netrc_lookup(NETRC.as_bytes(), "example.org"), Err(ReportError::CredentialNotFound));
    assert_eq!(netrc_lookup(b"", "example.org"), Err(ReportError::CredentialNotFound));
}

#[test]
fn netrc_lookup_wants_a_password() {
    assert_eq!(netrc_lookup(NETRC.as_bytes(), "nopass.example"), Err(ReportError::CredentialNotFound));
}

#[test]
fn netrc_lookup_refuses_text_that_the_parser_refuses() {
    assert_eq!(
        netrc_lookup(b"machine h login l password p\nbogus entry\n", "h"),
        Err(ReportError::CredentialNotFound)
    );
    assert_eq!(netrc_lookup(b"login l\nmachine h password p\n", "h"), Err(ReportError::CredentialNotFound));
}

#[test]
fn netrc_lookup_refuses_text_that_is_not_ascii() {
    let text = "machine h login l\u{e4} password p\n";
    assert!(!ascii_only(text.as_bytes()));
    assert!(ascii_only(NETRC.as_bytes()));
    assert_eq!(netrc_lookup(text.as_bytes(), "h"), Err(ReportError::CredentialNotFound));
    assert_eq!(netrc_lookup(&[0xff, 0xfe], "h"), Err(ReportError::CredentialNotFound));
}

#[test]
fn find_credentials_goes_by_the_first_entry() {
    let machines = vec![
        Machine { host: "a".to_string(), login: "la".to_string(), password: None },
        Machine { host: "b".to_string(), login: "lb".to_string(), password: Some("pb".to_string()) },
        Machine { host: "a".to_string(), login: "la2".to_string(), password: Some("pa".to_string()) },
    ];
    assert_eq!(find_credentials(&machines, "a"), Err(ReportError::CredentialNotFound));
    assert_eq!(
        find_credentials(&machines, "b"),
        Ok(Credentials::Basic("lb".to_string(), "pb".to_string()))
    );
    assert_eq!(find_credentials(&machines, "c"), Err(ReportError::CredentialNotFound));
    assert_eq!(find_credentials(&Vec::new(), "a"), Err(ReportError::CredentialNotFound));
}
