//! Key deleter rules: the one-shot publisher that clears a host's
//! retained key material by sending an empty payload to its topic.
//! The broker session itself is driven by the unverified rim.

use vstd::prelude::*;

use crate::config::ConfigError;
use crate::mqtt::MQTT;

verus! {

/// The deleter's whole configuration surface: broker settings only.
pub struct Configuration {
    pub mqtt: MQTT,
}

/// Accepts a deleter configuration or names the first broken rule;
/// the topic must be publishable, without wildcards.
pub fn validate(cfg: &Configuration) -> (r: Result<(), ConfigError>)
    ensures
        r is Ok <==> (crate::config::qos_valid(cfg.mqtt.qos) && crate::config::publish_topic_valid(
            cfg.mqtt.topic@,
        ) && cfg.mqtt.timeout != 0 && cfg.mqtt.reconnect_timeout != 0
            && crate::config::url_accepted(cfg.mqtt.broker@)),
        r == Err::<(), ConfigError>(ConfigError::InvalidQos) <==> !crate::config::qos_valid(
            cfg.mqtt.qos,
        ),
        r == Err::<(), ConfigError>(ConfigError::InvalidTopic) <==> (crate::config::qos_valid(
            cfg.mqtt.qos,
        ) && !crate::config::publish_topic_valid(cfg.mqtt.topic@)),
{
    crate::config::validate_publisher_mqtt(&cfg.mqtt)
}

/// The delete signal's payload: empty, so the broker clears the
/// retained message and subscribers drop the host's entry.
pub fn delete_payload() -> (r: Vec<u8>)
    ensures
        r@ =~= Seq::<u8>::empty(),
{
    Vec::new()
}

} // verus!
