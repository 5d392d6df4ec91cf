use hostkeys::known_hosts::known_hosts_content;
use hostkeys::payload::{Keydata, Message};
use hostkeys::reconcile::{ApplyOutcome, PayloadEvent, ReconciliationMap};
use hostkeys::topic::TopicError;

fn db1_message() -> Message {
    Message {
        hostname: vec!["db1".to_string(), "db1.internal".to_string()],
        keys: vec![Keydata {
            key_type: "ssh-ed25519".to_string(),
            key: "AAAAC3NzaC1lZDI1NTE5AAAAIG5vdCBhIHJlYWwga2V5".to_string(),
            comment: "root@db1".to_string(),
        }],
    }
}

#[test]
fn example_update_then_delete() {
    let mut map = ReconciliationMap::new();
    let outcome = map
        .apply("fleet/keys/db1", PayloadEvent::Document(db1_message()))
        .unwrap();
    assert_eq!(outcome, ApplyOutcome::Upserted);
    let content = known_hosts_content(&map);
    assert_eq!(
        content,
        "db1,db1.internal ssh-ed25519 AAAAC3NzaC1lZDI1NTE5AAAAIG5vdCBhIHJlYWwga2V5 root@db1\n"
    );

    let outcome = map.apply("fleet/keys/db1", PayloadEvent::Empty).unwrap();
    assert_eq!(outcome, ApplyOutcome::Removed);
    let content = known_hosts_content(&map);
    assert!(!content.contains("db1"));
    assert_eq!(content, "\n");
}

#[test]
fn idempotent_redelivery() {
    let mut map = ReconciliationMap::new();
    let first = map
        .apply("fleet/keys/db1", PayloadEvent::Document(db1_message()))
        .unwrap();
    let before = known_hosts_content(&map);
    let second = map
        .apply("fleet/keys/db1", PayloadEvent::Document(db1_message()))
        .unwrap();
    assert_eq!(first, ApplyOutcome::Upserted);
    assert_eq!(second, ApplyOutcome::NoChange);
    assert_eq!(known_hosts_content(&map), before);
}

#[test]
fn delete_absent_is_no_change() {
    let mut map = ReconciliationMap::new();
    let outcome = map.apply("fleet/keys/db1", PayloadEvent::Empty).unwrap();
    assert_eq!(outcome, ApplyOutcome::NoChange);
    assert_eq!(map.len(), 0);
}

#[test]
fn delete_present_removes_entry() {
    let mut map = ReconciliationMap::new();
    map.apply("fleet/keys/db1", PayloadEvent::Document(db1_message()))
        .unwrap();
    assert_eq!(map.len(), 1);
    let outcome = map.apply("fleet/keys/db1", PayloadEvent::Empty).unwrap();
    assert_eq!(outcome, ApplyOutcome::Removed);
    assert_eq!(map.len(), 0);
    assert!(map.get(&"db1".to_string()).is_none());
}

#[test]
fn empty_key_list_acts_as_delete() {
    let mut map = ReconciliationMap::new();
    map.apply("fleet/keys/db1", PayloadEvent::Document(db1_message()))
        .unwrap();
    let empty_keys = Message {
        hostname: vec!["db1".to_string()],
        keys: vec![],
    };
    let outcome = map
        .apply("fleet/keys/db1", PayloadEvent::Document(empty_keys))
        .unwrap();
    assert_eq!(outcome, ApplyOutcome::Removed);
    assert_eq!(map.len(), 0);
}

#[test]
fn malformed_payload_is_dropped() {
    // What the transport hands over as a malformed payload is exactly
    // what serde_json rejects; the engine then drops the event.
    let bad: Result<serde_json::Value, serde_json::Error> =
        serde_json::from_str("{\"hostname\": [unterminated");
    assert!(bad.is_err());

    let mut map = ReconciliationMap::new();
    map.apply("fleet/keys/db1", PayloadEvent::Document(db1_message()))
        .unwrap();
    let before = known_hosts_content(&map);

    let outcome = map
        .apply("fleet/keys/db1", PayloadEvent::Malformed)
        .unwrap();
    assert_eq!(outcome, ApplyOutcome::NoChange);
    assert_eq!(known_hosts_content(&map), before);

    // A following valid update for the same host is still processed.
    let changed = Message {
        hostname: vec!["db1".to_string()],
        keys: vec![Keydata {
            key_type: "ssh-rsa".to_string(),
            key: "AAAAB3NzaC1yc2E".to_string(),
            comment: "root@db1".to_string(),
        }],
    };
    let outcome = map
        .apply("fleet/keys/db1", PayloadEvent::Document(changed))
        .unwrap();
    assert_eq!(outcome, ApplyOutcome::Upserted);
    assert_eq!(
        known_hosts_content(&map),
        "db1 ssh-rsa AAAAB3NzaC1yc2E root@db1\n"
    );
}

#[test]
fn empty_topic_is_rejected() {
    let mut map = ReconciliationMap::new();
    let r = map.apply("", PayloadEvent::Empty);
    assert_eq!(r, Err(TopicError::EmptyTopic));
}

#[test]
fn convergence_last_write_wins() {
    // An interleaving of updates and deletes for two hosts: the final
    // state per host is the last effective event for it.
    let web = Message {
        hostname: vec!["web".to_string()],
        keys: vec![Keydata {
            key_type: "ssh-ed25519".to_string(),
            key: "KEYWEB1".to_string(),
            comment: "root@web".to_string(),
        }],
    };
    let web2 = Message {
        hostname: vec!["web".to_string(), "web.internal".to_string()],
        keys: vec![Keydata {
            key_type: "ssh-ed25519".to_string(),
            key: "KEYWEB2".to_string(),
            comment: "root@web".to_string(),
        }],
    };
    let db = db1_message();

    let mut map = ReconciliationMap::new();
    map.apply("fleet/keys/web", PayloadEvent::Document(web)).unwrap();
    map.apply("fleet/keys/db1", PayloadEvent::Document(db)).unwrap();
    map.apply("fleet/keys/web", PayloadEvent::Malformed).unwrap();
    map.apply("fleet/keys/db1", PayloadEvent::Empty).unwrap();
    map.apply("fleet/keys/web", PayloadEvent::Document(web2)).unwrap();

    // db1 was deleted last, web was updated last.
    assert!(map.get(&"db1".to_string()).is_none());
    let stored = map.get(&"web".to_string()).unwrap();
    assert!(stored.hostname == vec!["web".to_string(), "web.internal".to_string()]);
    assert_eq!(
        known_hosts_content(&map),
        "web,web.internal ssh-ed25519 KEYWEB2 root@web\n"
    );
}

#[test]
fn changed_update_replaces_wholesale() {
    let mut map = ReconciliationMap::new();
    map.apply("fleet/keys/db1", PayloadEvent::Document(db1_message()))
        .unwrap();
    let replacement = Message {
        hostname: vec!["db1".to_string()],
        keys: vec![Keydata {
            key_type: "ssh-rsa".to_string(),
            key: "NEWKEY".to_string(),
            comment: "ops@db1".to_string(),
        }],
    };
    let outcome = map
        .apply("fleet/keys/db1", PayloadEvent::Document(replacement))
        .unwrap();
    assert_eq!(outcome, ApplyOutcome::Upserted);
    assert_eq!(known_hosts_content(&map), "db1 ssh-rsa NEWKEY ops@db1\n");
}

#[test]
fn multiple_keys_render_one_line_each() {
    let host = Message {
        hostname: vec!["gw".to_string()],
        keys: vec![
            Keydata {
                key_type: "ssh-ed25519".to_string(),
                key: "K1".to_string(),
                comment: "a".to_string(),
            },
            Keydata {
                key_type: "ssh-rsa".to_string(),
                key: "K2".to_string(),
                comment: "b".to_string(),
            },
        ],
    };
    let mut map = ReconciliationMap::new();
    map.apply("fleet/keys/gw", PayloadEvent::Document(host)).unwrap();
    assert_eq!(
        known_hosts_content(&map),
        "gw ssh-ed25519 K1 a\ngw ssh-rsa K2 b\n"
    );
}

#[test]
fn empty_map_renders_single_newline() {
    let map = ReconciliationMap::new();
    assert_eq!(known_hosts_content(&map), "\n");
}

#[test]
fn message_equality_is_structural_and_order_sensitive() {
    let a = db1_message();
    let b = db1_message();
    assert!(a == b);
    let mut c = db1_message();
    c.hostname.reverse();
    assert!(!(a == c));
    let mut d = db1_message();
    d.keys[0].comment = "other".to_string();
    assert!(!(a == d));
}

#[test]
fn new_message_and_keydata_are_empty() {
    let m = Message::new();
    assert!(m.hostname.is_empty());
    assert!(m.keys.is_empty());
    let k = Keydata::new();
    assert!(k.key_type.is_empty());
    assert!(k.key.is_empty());
    assert!(k.comment.is_empty());
}
