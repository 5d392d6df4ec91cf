use hostkeys::config::{validate, validate_hostname, ConfigError, Configuration, Ssh};
use hostkeys::mqtt::MQTT;

fn consumer_config() -> Configuration {
    Configuration {
        mqtt: MQTT {
            broker: "tcp://broker.example:1883".to_string(),
            ca_cert: String::new(),
            clean_session: false,
            client_id: "updater-1".to_string(),
            insecure_ssl: false,
            password: "SECRET-REDACTED".to_string(),
            qos: 1,
            reconnect_timeout: 5,
            timeout: 15,
            topic: "fleet/keys/+".to_string(),
            user: "updater".to_string(),
        },
        ssh: Ssh {
            known_hosts_file: "/etc/ssh/ssh_known_hosts".to_string(),
        },
    }
}

#[test]
fn valid_consumer_config_is_accepted() {
    assert_eq!(validate(&consumer_config()), Ok(()));
}

#[test]
fn qos_out_of_range_is_rejected() {
    let mut cfg = consumer_config();
    cfg.mqtt.qos = 3;
    assert_eq!(validate(&cfg), Err(ConfigError::InvalidQos));
    cfg.mqtt.qos = -1;
    assert_eq!(validate(&cfg), Err(ConfigError::InvalidQos));
}

#[test]
fn subscription_topic_needs_a_wildcard() {
    let mut cfg = consumer_config();
    cfg.mqtt.topic = "fleet/keys".to_string();
    assert_eq!(validate(&cfg), Err(ConfigError::InvalidTopic));
    cfg.mqtt.topic = String::new();
    assert_eq!(validate(&cfg), Err(ConfigError::InvalidTopic));
    cfg.mqtt.topic = "fleet/#".to_string();
    assert_eq!(validate(&cfg), Ok(()));
}

#[test]
fn zero_timeouts_are_rejected() {
    let mut cfg = consumer_config();
    cfg.mqtt.timeout = 0;
    assert_eq!(validate(&cfg), Err(ConfigError::InvalidTimeout));
    let mut cfg = consumer_config();
    cfg.mqtt.reconnect_timeout = 0;
    assert_eq!(validate(&cfg), Err(ConfigError::InvalidReconnectTimeout));
}

#[test]
fn broker_address_must_parse_as_url() {
    let mut cfg = consumer_config();
    cfg.mqtt.broker = "not a url at all".to_string();
    assert_eq!(validate(&cfg), Err(ConfigError::InvalidBrokerUrl));
}

#[test]
fn known_hosts_file_must_be_named() {
    let mut cfg = consumer_config();
    cfg.ssh.known_hosts_file = String::new();
    assert_eq!(validate(&cfg), Err(ConfigError::EmptyKnownHostsFile));
}

#[test]
fn hostnames_reject_separators_and_wildcards() {
    assert_eq!(validate_hostname("db1.internal"), Ok(()));
    assert_eq!(validate_hostname("a/b"), Err(ConfigError::InvalidHostname));
    assert_eq!(validate_hostname("a+b"), Err(ConfigError::InvalidHostname));
    assert_eq!(validate_hostname("a#b"), Err(ConfigError::InvalidHostname));
}
