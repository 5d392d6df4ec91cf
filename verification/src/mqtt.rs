//! Broker connection settings and the connection manager's decision
//! rules: the bounded retry policy, the TLS option plan and the
//! resubscribe-on-fresh-session rule. The unverified rim drives the
//! actual broker client with these decisions.

use vstd::prelude::*;

use rand::Rng;

use crate::text::has_prefix;

verus! {

/// Default connect timeout, in seconds.
pub const DEFAULT_MQTT_TIMEOUT: u64 = 15;

/// Default bound on connect and reconnect attempts. Zero would mean
/// an unbounded budget, so the default is a finite one.
pub const DEFAULT_MQTT_RECONNECT_TIMEOUT: u64 = 300;

/// Longest client identifier accepted by older broker protocol
/// revisions; generated identifiers keep to it.
pub const MAXIMAL_CLIENT_ID_LENGTH: usize = 23;

/// Broker connection settings, as the configuration file provides
/// them: address, credentials, session mode, timeouts, the topic and
/// its delivery guarantee level.
pub struct MQTT {
    pub broker: String,
    pub ca_cert: String,
    pub clean_session: bool,
    pub client_id: String,
    pub insecure_ssl: bool,
    pub password: String,
    pub qos: i32,
    pub reconnect_timeout: u64,
    pub timeout: u64,
    pub topic: String,
    pub user: String,
}

/// The connect timeout used when the configuration names none.
pub fn mqtt_default_timeout() -> (r: u64)
    ensures
        r == DEFAULT_MQTT_TIMEOUT,
{
    DEFAULT_MQTT_TIMEOUT
}

/// The retry bound used when the configuration names none.
pub fn mqtt_default_reconnect_timeout() -> (r: u64)
    ensures
        r == DEFAULT_MQTT_RECONNECT_TIMEOUT,
{
    DEFAULT_MQTT_RECONNECT_TIMEOUT
}

/// An ASCII letter or digit.
pub open spec fn is_ascii_alphanumeric_char(c: char) -> bool {
    ('0' <= c && c <= '9') || ('A' <= c && c <= 'Z') || ('a' <= c && c <= 'z')
}

/// Relies on rand's `Alphanumeric` distribution: every sample is an
/// ASCII letter or digit. The result is random, so nothing beyond its
/// length and character set is claimed.
#[verifier::external_body]
fn random_alphanumeric(len: usize) -> (r: String)
    ensures
        r@.len() == len as nat,
        forall|i: int| 0 <= i < r@.len() ==> is_ascii_alphanumeric_char(#[trigger] r@[i]),
{
    rand::thread_rng()
        .sample_iter(&rand::distributions::Alphanumeric)
        .take(len)
        .map(char::from)
        .collect()
}

/// A freshly drawn client identifier of the maximal accepted length,
/// used when the configuration names none.
pub fn mqtt_default_client_id() -> (r: String)
    ensures
        r@.len() == MAXIMAL_CLIENT_ID_LENGTH as nat,
        forall|i: int| 0 <= i < r@.len() ==> is_ascii_alphanumeric_char(#[trigger] r@[i]),
{
    random_alphanumeric(MAXIMAL_CLIENT_ID_LENGTH)
}

/// Whether the broker address selects a TLS transport.
pub open spec fn spec_secure_transport(b: Seq<char>) -> bool {
    "ssl://"@.is_prefix_of(b) || "tls://"@.is_prefix_of(b)
}

/// Whether the broker address starts with one of the secure schemes.
pub fn uses_secure_transport(broker: &str) -> (r: bool)
    ensures
        r == spec_secure_transport(broker@),
{
    has_prefix(broker, "ssl://") || has_prefix(broker, "tls://")
}

/// How the session's TLS options are to be set up.
pub struct TlsPlan {
    pub use_tls: bool,
    pub use_trust_store: bool,
    pub verify_peer: bool,
}

/// Decides the TLS part of the connect options: TLS exactly for the
/// secure schemes, a trust store only when one is configured, and
/// certificate validation disabled only by the explicit insecure
/// flag - never by default.
pub fn tls_plan(cfg: &MQTT) -> (p: TlsPlan)
    ensures
        p.use_tls == spec_secure_transport(cfg.broker@),
        p.use_trust_store == (p.use_tls && cfg.ca_cert@.len() > 0),
        p.verify_peer == !cfg.insecure_ssl,
{
    let use_tls = uses_secure_transport(cfg.broker.as_str());
    let with_store = use_tls && !cfg.ca_cert.as_str().is_empty();
    TlsPlan { use_tls: use_tls, use_trust_store: with_store, verify_peer: !cfg.insecure_ssl }
}

/// Decision after a failed connect or reconnect attempt.
#[derive(Clone, Copy, PartialEq, Eq, Structural, Debug)]
pub enum RetryDecision {
    Retry,
    GiveUp,
}

/// What the retry policy decides once `failures` attempts have failed
/// under the given bound: with bound zero it retries forever,
/// otherwise it gives up as soon as the failure count exceeds the
/// bound.
pub open spec fn spec_retry_decision(limit: u64, failures: u64) -> RetryDecision {
    if limit != 0 && failures > limit {
        RetryDecision::GiveUp
    } else {
        RetryDecision::Retry
    }
}

/// Attempt bookkeeping for one connect or reconnect call. Each call
/// starts with a fresh budget: the counter counts the call's own
/// failures, and the bound comes from the configuration.
pub struct RetryCounter {
    pub limit: u64,
    pub failures: u64,
}

impl RetryCounter {
    /// A fresh budget under the given bound; no attempt has failed yet.
    pub fn new(limit: u64) -> (r: Self)
        ensures
            r.limit == limit,
            r.failures == 0,
    {
        RetryCounter { limit: limit, failures: 0 }
    }

    /// Records one failed attempt and decides: retry after the fixed
    /// one-second pause, or give up and report the transport error.
    pub fn on_failure(&mut self) -> (d: RetryDecision)
        requires
            old(self).failures < u64::MAX,
        ensures
            final(self).limit == old(self).limit,
            final(self).failures == old(self).failures + 1,
            d == spec_retry_decision(old(self).limit, (old(self).failures + 1) as u64),
    {
        self.failures = self.failures + 1;
        if self.limit != 0 && self.failures > self.limit {
            RetryDecision::GiveUp
        } else {
            RetryDecision::Retry
        }
    }
}

/// Retry bound: under a nonzero bound N, each of the first N failures
/// is answered with a retry and failure N+1 with giving up, so a call
/// that never connects makes exactly N+1 attempts before it reports
/// terminal failure.
pub proof fn lemma_retry_bound(limit: u64, k: u64)
    requires
        0 < limit,
        1 <= k,
        k as int <= limit as int + 1,
    ensures
        k <= limit ==> spec_retry_decision(limit, k) == RetryDecision::Retry,
        k as int == limit as int + 1 ==> spec_retry_decision(limit, k) == RetryDecision::GiveUp,
{
}

/// With bound zero the policy never gives up: attempts continue until
/// one succeeds.
pub proof fn lemma_retry_unbounded(k: u64)
    ensures
        spec_retry_decision(0, k) == RetryDecision::Retry,
{
}

/// Session rule: a session the broker did not resume must be
/// subscribed afresh; a resumed session keeps its subscription and is
/// not resubscribed.
pub fn must_resubscribe(session_present: bool) -> (r: bool)
    ensures
        r == !session_present,
{
    !session_present
}

} // verus!
