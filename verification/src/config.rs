//! Configuration rules for the consumer: which settings are accepted
//! and with which error each bad one is rejected. File reading and
//! document decoding happen in the unverified rim; the decoded values
//! are validated here.

use vstd::prelude::*;

use crate::mqtt::MQTT;

verus! {

/// Why a configuration or a command line value was rejected.
#[derive(Clone, Copy, PartialEq, Eq, Structural, Debug)]
pub enum ConfigError {
    InvalidQos,
    InvalidTopic,
    InvalidTimeout,
    InvalidReconnectTimeout,
    InvalidBrokerUrl,
    EmptyKnownHostsFile,
    InvalidHostname,
}

/// The delivery guarantee levels the broker protocol knows.
pub open spec fn qos_valid(q: i32) -> bool {
    0 <= q <= 2
}

/// A topic pattern the consumer may subscribe to: non-empty and with
/// a wildcard, since one subscription must cover the whole fleet.
pub open spec fn subscribe_topic_valid(t: Seq<char>) -> bool {
    t.len() > 0 && (t.contains('+') || t.contains('#'))
}

/// A topic a producer may publish to: non-empty and without
/// wildcards, since one message addresses one host.
pub open spec fn publish_topic_valid(t: Seq<char>) -> bool {
    t.len() > 0 && !t.contains('+') && !t.contains('#')
}

/// A host name that may stand as a topic's final segment: free of the
/// path separator and of both wildcard characters.
pub open spec fn hostname_valid(h: Seq<char>) -> bool {
    !h.contains('/') && !h.contains('+') && !h.contains('#')
}

/// Whether `url::Url::parse` accepts the string as an address.
pub uninterp spec fn url_accepted(s: Seq<char>) -> bool;

/// Relies on `url::Url::parse`: acceptance depends on the string
/// alone, so the broker address check is a pure predicate of it.
#[verifier::external_body]
fn broker_url_accepted(s: &str) -> (r: bool)
    ensures
        r == url_accepted(s@),
{
    url::Url::parse(s).is_ok()
}

/// Shared checks on the broker settings, in the order the errors are
/// reported: delivery level, timeouts, address. The topic rule
/// differs between consumer and producers and is checked by the
/// callers first.
fn validate_mqtt_common(m: &MQTT) -> (r: Result<(), ConfigError>)
    ensures
        r is Ok <==> (qos_valid(m.qos) && m.timeout != 0 && m.reconnect_timeout != 0
            && url_accepted(m.broker@)),
        r == Err::<(), ConfigError>(ConfigError::InvalidQos) <==> !qos_valid(m.qos),
        r == Err::<(), ConfigError>(ConfigError::InvalidTimeout) <==> (qos_valid(m.qos)
            && m.timeout == 0),
        r == Err::<(), ConfigError>(ConfigError::InvalidReconnectTimeout) <==> (qos_valid(m.qos)
            && m.timeout != 0 && m.reconnect_timeout == 0),
        r == Err::<(), ConfigError>(ConfigError::InvalidBrokerUrl) <==> (qos_valid(m.qos)
            && m.timeout != 0 && m.reconnect_timeout != 0 && !url_accepted(m.broker@)),
{
    if m.qos > 2 || m.qos < 0 {
        return Err(ConfigError::InvalidQos);
    }
    if m.timeout == 0 {
        return Err(ConfigError::InvalidTimeout);
    }
    if m.reconnect_timeout == 0 {
        return Err(ConfigError::InvalidReconnectTimeout);
    }
    if !broker_url_accepted(m.broker.as_str()) {
        return Err(ConfigError::InvalidBrokerUrl);
    }
    Ok(())
}

/// Trust file settings of the consumer.
pub struct Ssh {
    pub known_hosts_file: String,
}

/// The consumer's whole configuration surface: broker settings and
/// the trust file location.
pub struct Configuration {
    pub mqtt: MQTT,
    pub ssh: Ssh,
}

/// Accepts a consumer configuration or names the first broken rule:
/// a valid delivery level, a wildcard subscription topic, nonzero
/// timeouts, a parseable broker address and a named trust file.
pub fn validate(cfg: &Configuration) -> (r: Result<(), ConfigError>)
    ensures
        r is Ok <==> (qos_valid(cfg.mqtt.qos) && subscribe_topic_valid(cfg.mqtt.topic@)
            && cfg.mqtt.timeout != 0 && cfg.mqtt.reconnect_timeout != 0
            && url_accepted(cfg.mqtt.broker@) && cfg.ssh.known_hosts_file@.len() > 0),
        r == Err::<(), ConfigError>(ConfigError::InvalidQos) <==> !qos_valid(cfg.mqtt.qos),
        r == Err::<(), ConfigError>(ConfigError::InvalidTopic) <==> (qos_valid(cfg.mqtt.qos)
            && !subscribe_topic_valid(cfg.mqtt.topic@)),
        r == Err::<(), ConfigError>(ConfigError::InvalidTimeout) <==> (qos_valid(cfg.mqtt.qos)
            && subscribe_topic_valid(cfg.mqtt.topic@) && cfg.mqtt.timeout == 0),
        r == Err::<(), ConfigError>(ConfigError::InvalidReconnectTimeout) <==> (qos_valid(
            cfg.mqtt.qos,
        ) && subscribe_topic_valid(cfg.mqtt.topic@) && cfg.mqtt.timeout != 0
            && cfg.mqtt.reconnect_timeout == 0),
        r == Err::<(), ConfigError>(ConfigError::InvalidBrokerUrl) <==> (qos_valid(cfg.mqtt.qos)
            && subscribe_topic_valid(cfg.mqtt.topic@) && cfg.mqtt.timeout != 0
            && cfg.mqtt.reconnect_timeout != 0 && !url_accepted(cfg.mqtt.broker@)),
        r == Err::<(), ConfigError>(ConfigError::EmptyKnownHostsFile) <==> (qos_valid(
            cfg.mqtt.qos,
        ) && subscribe_topic_valid(cfg.mqtt.topic@) && cfg.mqtt.timeout != 0
            && cfg.mqtt.reconnect_timeout != 0 && url_accepted(cfg.mqtt.broker@)
            && cfg.ssh.known_hosts_file@.len() == 0),
{
    if cfg.mqtt.qos > 2 || cfg.mqtt.qos < 0 {
        return Err(ConfigError::InvalidQos);
    }
    let topic = cfg.mqtt.topic.as_str();
    if topic.is_empty() || (!crate::text::contains_char(topic, '+') && !crate::text::contains_char(
        topic,
        '#',
    )) {
        return Err(ConfigError::InvalidTopic);
    }
    match validate_mqtt_common(&cfg.mqtt) {
        Ok(()) => {},
        Err(e) => {
            return Err(e);
        },
    }
    if cfg.ssh.known_hosts_file.as_str().is_empty() {
        return Err(ConfigError::EmptyKnownHostsFile);
    }
    Ok(())
}

/// Checks the broker settings of a producer: like the consumer's
/// rules, but the topic must be a publishable one, without wildcards.
pub fn validate_publisher_mqtt(m: &MQTT) -> (r: Result<(), ConfigError>)
    ensures
        r is Ok <==> (qos_valid(m.qos) && publish_topic_valid(m.topic@) && m.timeout != 0
            && m.reconnect_timeout != 0 && url_accepted(m.broker@)),
        r == Err::<(), ConfigError>(ConfigError::InvalidQos) <==> !qos_valid(m.qos),
        r == Err::<(), ConfigError>(ConfigError::InvalidTopic) <==> (qos_valid(m.qos)
            && !publish_topic_valid(m.topic@)),
        r == Err::<(), ConfigError>(ConfigError::InvalidTimeout) <==> (qos_valid(m.qos)
            && publish_topic_valid(m.topic@) && m.timeout == 0),
        r == Err::<(), ConfigError>(ConfigError::InvalidReconnectTimeout) <==> (qos_valid(m.qos)
            && publish_topic_valid(m.topic@) && m.timeout != 0 && m.reconnect_timeout == 0),
        r == Err::<(), ConfigError>(ConfigError::InvalidBrokerUrl) <==> (qos_valid(m.qos)
            && publish_topic_valid(m.topic@) && m.timeout != 0 && m.reconnect_timeout != 0
            && !url_accepted(m.broker@)),
{
    if m.qos > 2 || m.qos < 0 {
        return Err(ConfigError::InvalidQos);
    }
    let topic = m.topic.as_str();
    if topic.is_empty() || crate::text::contains_char(topic, '+') || crate::text::contains_char(
        topic,
        '#',
    ) {
        return Err(ConfigError::InvalidTopic);
    }
    validate_mqtt_common(m)
}

/// Accepts a host name for a delete request, or rejects one that
/// could derail topic routing: no path separator, no wildcards.
pub fn validate_hostname(h: &str) -> (r: Result<(), ConfigError>)
    ensures
        r is Ok <==> hostname_valid(h@),
        r is Err ==> r == Err::<(), ConfigError>(ConfigError::InvalidHostname),
{
    if crate::text::contains_char(h, '/') || crate::text::contains_char(h, '+')
        || crate::text::contains_char(h, '#') {
        return Err(ConfigError::InvalidHostname);
    }
    Ok(())
}

} // verus!
