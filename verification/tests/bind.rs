use agentverse::bind::{api_key_configured, is_loopback_host, validate_bind_security};

#[test]
fn non_loopback_without_key_or_flag_is_rejected() {
    assert!(validate_bind_security("0.0.0.0", false, false).is_err());
}

#[test]
fn non_loopback_with_key_is_allowed() {
    assert!(validate_bind_security("0.0.0.0", true, false).is_ok());
}

#[test]
fn non_loopback_with_insecure_flag_is_allowed() {
    assert!(validate_bind_security("0.0.0.0", false, true).is_ok());
}

#[test]
fn loopback_without_key_is_allowed() {
    assert!(validate_bind_security("127.0.0.1", false, false).is_ok());
}

#[test]
fn loopback_hosts_are_recognized() {
    assert!(is_loopback_host("127.0.0.1"));
    assert!(is_loopback_host("::1"));
    assert!(is_loopback_host("localhost"));
    assert!(is_loopback_host("LOCALHOST"));
    assert!(!is_loopback_host("0.0.0.0"));
    assert!(!is_loopback_host("192.168.1.10"));
    assert!(!is_loopback_host("example.com"));
}

#[test]
fn other_loopback_spellings_are_recognized() {
    assert!(is_loopback_host("127.255.0.9"));
    assert!(is_loopback_host("0:0:0:0:0:0:0:1"));
    assert!(is_loopback_host("::0001"));
    assert!(!is_loopback_host("128.0.0.1"));
    assert!(!is_loopback_host("127.0.0.256"));
    assert!(!is_loopback_host("::2"));
    assert!(!is_loopback_host(""));
}

#[test]
fn api_key_configured_requires_non_empty_value() {
    assert!(api_key_configured(Some("k")));
    assert!(!api_key_configured(Some("")));
    assert!(!api_key_configured(Some("  ")));
    assert!(!api_key_configured(None));
}

#[test]
fn rejection_names_the_host() {
    let e = validate_bind_security("10.0.0.5", false, false).unwrap_err();
    assert!(e.contains("'10.0.0.5'"));
    assert!(e.starts_with("refusing to serve HTTP on non-loopback address"));
}
