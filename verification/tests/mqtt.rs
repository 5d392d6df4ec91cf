use hostkeys::mqtt::{
    mqtt_default_client_id, mqtt_default_reconnect_timeout, mqtt_default_timeout,
    must_resubscribe, tls_plan, RetryCounter, RetryDecision, MQTT,
    DEFAULT_MQTT_RECONNECT_TIMEOUT, DEFAULT_MQTT_TIMEOUT, MAXIMAL_CLIENT_ID_LENGTH,
};

fn broker_config(broker: &str) -> MQTT {
    MQTT {
        broker: broker.to_string(),
        ca_cert: String::new(),
        clean_session: true,
        client_id: "c1".to_string(),
        insecure_ssl: false,
        password: "SECRET-REDACTED".to_string(),
        qos: 0,
        reconnect_timeout: 3,
        timeout: 15,
        topic: "fleet/keys".to_string(),
        user: "u".to_string(),
    }
}

#[test]
fn bounded_retry_makes_limit_plus_one_attempts() {
    // Attempt bound 3: the first attempt plus three retries fail, the
    // policy gives up after the fourth attempt - exactly N+1 attempts.
    let mut counter = RetryCounter::new(3);
    let mut attempts: u64 = 1;
    loop {
        match counter.on_failure() {
            RetryDecision::Retry => attempts += 1,
            RetryDecision::GiveUp => break,
        }
    }
    assert_eq!(attempts, 4);
}

#[test]
fn unbounded_retry_never_gives_up() {
    let mut counter = RetryCounter::new(0);
    for _ in 0..10_000 {
        assert_eq!(counter.on_failure(), RetryDecision::Retry);
    }
}

#[test]
fn retry_decision_flips_only_past_the_bound() {
    let mut counter = RetryCounter::new(1);
    assert_eq!(counter.on_failure(), RetryDecision::Retry);
    assert_eq!(counter.on_failure(), RetryDecision::GiveUp);
}

#[test]
fn generated_client_id_is_short_and_alphanumeric() {
    let id = mqtt_default_client_id();
    assert_eq!(id.chars().count(), MAXIMAL_CLIENT_ID_LENGTH);
    assert!(id.chars().all(|c| c.is_ascii_alphanumeric()));
}

#[test]
fn generated_client_ids_differ_between_draws() {
    // Two 23-character random draws colliding would be astonishing.
    assert_ne!(mqtt_default_client_id(), mqtt_default_client_id());
}

#[test]
fn default_timeouts_are_the_named_constants() {
    assert_eq!(mqtt_default_timeout(), DEFAULT_MQTT_TIMEOUT);
    assert_eq!(mqtt_default_reconnect_timeout(), DEFAULT_MQTT_RECONNECT_TIMEOUT);
    assert!(mqtt_default_timeout() > 0);
    assert!(mqtt_default_reconnect_timeout() > 0);
}

#[test]
fn tls_only_for_secure_schemes() {
    assert!(!tls_plan(&broker_config("tcp://broker:1883")).use_tls);
    assert!(tls_plan(&broker_config("ssl://broker:8883")).use_tls);
    assert!(tls_plan(&broker_config("tls://broker:8883")).use_tls);
}

#[test]
fn trust_store_only_when_configured() {
    let mut cfg = broker_config("ssl://broker:8883");
    assert!(!tls_plan(&cfg).use_trust_store);
    cfg.ca_cert = "/etc/ssl/ca.pem".to_string();
    assert!(tls_plan(&cfg).use_trust_store);
    // Without TLS the trust store is never used.
    let mut plain = broker_config("tcp://broker:1883");
    plain.ca_cert = "/etc/ssl/ca.pem".to_string();
    assert!(!tls_plan(&plain).use_trust_store);
}

#[test]
fn certificate_validation_disabled_only_explicitly() {
    let mut cfg = broker_config("ssl://broker:8883");
    assert!(tls_plan(&cfg).verify_peer);
    cfg.insecure_ssl = true;
    assert!(!tls_plan(&cfg).verify_peer);
}

#[test]
fn fresh_sessions_resubscribe_resumed_ones_do_not() {
    assert!(must_resubscribe(false));
    assert!(!must_resubscribe(true));
}
