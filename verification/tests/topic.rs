use hostkeys::topic::{child_topic, host_identifier, TopicError};

#[test]
fn trailing_segment_is_host() {
    assert_eq!(host_identifier("fleet/keys/db1").unwrap(), "db1");
}

#[test]
fn topic_without_separator_is_its_own_host() {
    assert_eq!(host_identifier("db1").unwrap(), "db1");
}

#[test]
fn empty_topic_is_an_error() {
    assert_eq!(host_identifier(""), Err(TopicError::EmptyTopic));
}

#[test]
fn trailing_separator_yields_empty_segment() {
    assert_eq!(host_identifier("fleet/keys/").unwrap(), "");
}

#[test]
fn deep_paths_keep_only_the_tail() {
    assert_eq!(host_identifier("a/b/c/d/host-9").unwrap(), "host-9");
}

#[test]
fn child_topic_appends_one_segment() {
    assert_eq!(child_topic("fleet/keys", "db1"), "fleet/keys/db1");
}

#[test]
fn child_topic_round_trips_through_parser() {
    let t = child_topic("fleet/keys", "web.internal");
    assert_eq!(host_identifier(&t).unwrap(), "web.internal");
}
