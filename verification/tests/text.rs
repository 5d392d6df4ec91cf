use hostkeys::text::{contains_char, has_prefix, has_suffix, join_comma, trim_trailing_slashes};

#[test]
fn character_search_finds_wildcards() {
    assert!(contains_char("fleet/keys/+", '+'));
    assert!(contains_char("fleet/#", '#'));
    assert!(!contains_char("fleet/keys", '+'));
    assert!(!contains_char("", '+'));
}

#[test]
fn prefix_test_is_exact() {
    assert!(has_prefix("ssl://broker", "ssl://"));
    assert!(!has_prefix("ssl://broker", "tls://"));
    assert!(!has_prefix("ssl", "ssl://"));
    assert!(has_prefix("anything", ""));
}

#[test]
fn suffix_test_is_exact() {
    assert!(has_suffix("ssh_host_rsa_key.pub", "_key.pub"));
    assert!(!has_suffix("ssh_host_rsa_key", "_key.pub"));
    assert!(has_suffix("x", ""));
}

#[test]
fn comma_join_matches_the_trust_file_column() {
    assert_eq!(join_comma(&vec![]), "");
    assert_eq!(join_comma(&vec!["db1".to_string()]), "db1");
    assert_eq!(
        join_comma(&vec!["db1".to_string(), "db1.internal".to_string()]),
        "db1,db1.internal"
    );
}

#[test]
fn configured_topics_lose_trailing_slashes() {
    assert_eq!(trim_trailing_slashes("fleet/keys/"), "fleet/keys");
    assert_eq!(trim_trailing_slashes("fleet/keys///"), "fleet/keys");
    assert_eq!(trim_trailing_slashes("fleet/keys"), "fleet/keys");
    assert_eq!(trim_trailing_slashes("///"), "");
    assert_eq!(trim_trailing_slashes(""), "");
}
