//! Key collector rules: assembling one host's key set from the text
//! of its public key files. Reading files and publishing the result
//! happen in the unverified rim; parsing and assembly are verified.

use vstd::prelude::*;
use vstd::string::StrSliceExecFns;

use crate::config::ConfigError;
use crate::mqtt::MQTT;
use crate::payload::{Keydata, KeydataView, Message, strings_view, keys_view};

verus! {

/// Key sources of the collector: which files to read, which host
/// names to announce and an optional comment override.
pub struct SSHKeys {
    pub files: Vec<String>,
    pub hostname: Vec<String>,
    pub comment: Option<String>,
}

/// The collector's whole configuration surface.
pub struct Configuration {
    pub mqtt: MQTT,
    pub ssh_keys: SSHKeys,
    pub ssh_directory: String,
}

/// Accepts a collector configuration or names the first broken rule;
/// the topic must be publishable, without wildcards.
pub fn validate(cfg: &Configuration) -> (r: Result<(), ConfigError>)
    ensures
        r is Ok <==> (crate::config::qos_valid(cfg.mqtt.qos) && crate::config::publish_topic_valid(
            cfg.mqtt.topic@,
        ) && cfg.mqtt.timeout != 0 && cfg.mqtt.reconnect_timeout != 0
            && crate::config::url_accepted(cfg.mqtt.broker@)),
        r == Err::<(), ConfigError>(ConfigError::InvalidQos) <==> !crate::config::qos_valid(
            cfg.mqtt.qos,
        ),
        r == Err::<(), ConfigError>(ConfigError::InvalidTopic) <==> (crate::config::qos_valid(
            cfg.mqtt.qos,
        ) && !crate::config::publish_topic_valid(cfg.mqtt.topic@)),
{
    crate::config::validate_publisher_mqtt(&cfg.mqtt)
}

/// The index of the first occurrence of `c`, or a negative value when
/// none occurs.
pub open spec fn first_occurrence(s: Seq<char>, c: char) -> int
    decreases s.len(),
{
    if s.len() == 0 {
        -1
    } else if s[0] == c {
        0
    } else if first_occurrence(s.drop_first(), c) < 0 {
        -1
    } else {
        first_occurrence(s.drop_first(), c) + 1
    }
}

/// A key file's text split at its first two spaces: key type, key
/// material, and the whole remainder as the comment. Text with fewer
/// than three fields does not parse.
pub open spec fn spec_parse_key_data(s: Seq<char>) -> Option<KeydataView> {
    let i = first_occurrence(s, ' ');
    if i < 0 {
        None
    } else {
        let rest = s.subrange(i + 1, s.len() as int);
        let j = first_occurrence(rest, ' ');
        if j < 0 {
            None
        } else {
            Some(
                KeydataView {
                    key_type: s.subrange(0, i),
                    key: rest.subrange(0, j),
                    comment: rest.subrange(j + 1, rest.len() as int),
                },
            )
        }
    }
}

proof fn lemma_first_occurrence(s: Seq<char>, c: char, i: int)
    requires
        0 <= i < s.len(),
        s[i] == c,
        forall|k: int| 0 <= k < i ==> s[k] != c,
    ensures
        first_occurrence(s, c) == i,
    decreases s.len(),
{
    if i > 0 {
        lemma_first_occurrence(s.drop_first(), c, i - 1);
    }
}

proof fn lemma_no_occurrence(s: Seq<char>, c: char)
    requires
        forall|k: int| 0 <= k < s.len() ==> s[k] != c,
    ensures
        first_occurrence(s, c) == -1,
    decreases s.len(),
{
    if s.len() > 0 {
        lemma_no_occurrence(s.drop_first(), c);
    }
}

/// Parses one public key file's text: `<type> <key> <comment>`, split
/// at the first two spaces. Text without three fields is rejected
/// rather than processed.
pub fn parse_key_data(raw: &str) -> (r: Option<Keydata>)
    ensures
        r is Some <==> spec_parse_key_data(raw@) is Some,
        r is Some ==> r->0@ == spec_parse_key_data(raw@)->0,
{
    let n: usize = raw.unicode_len();
    let mut i: usize = 0;
    while i < n && raw.get_char(i) != ' '
        invariant
            n == raw@.len(),
            i <= n,
            forall|k: int| 0 <= k < i ==> raw@[k] != ' ',
        decreases n - i,
    {
        i += 1;
    }
    if i == n {
        proof {
            lemma_no_occurrence(raw@, ' ');
        }
        return None;
    }
    proof {
        lemma_first_occurrence(raw@, ' ', i as int);
    }
    let ghost rest = raw@.subrange(i as int + 1, n as int);
    let mut j: usize = i + 1;
    while j < n && raw.get_char(j) != ' '
        invariant
            n == raw@.len(),
            i < j <= n,
            forall|k: int| i < k < j ==> raw@[k] != ' ',
        decreases n - j,
    {
        j += 1;
    }
    if j == n {
        proof {
            assert(forall|k: int| 0 <= k < rest.len() ==> rest[k] != ' ');
            lemma_no_occurrence(rest, ' ');
        }
        return None;
    }
    proof {
        assert(rest[j - i - 1] == ' ');
        assert(forall|k: int| 0 <= k < j - i - 1 ==> rest[k] != ' ');
        lemma_first_occurrence(rest, ' ', j - i - 1);
    }
    let r = Keydata {
        key_type: raw.substring_char(0, i).to_owned(),
        key: raw.substring_char(i + 1, j).to_owned(),
        comment: raw.substring_char(j + 1, n).to_owned(),
    };
    proof {
        assert(rest.subrange(0, j - i - 1) =~= raw@.subrange(i as int + 1, j as int));
        assert(rest.subrange(j - i - 1 + 1, rest.len() as int) =~= raw@.subrange(
            j as int + 1,
            n as int,
        ));
    }
    Some(r)
}

/// The comment as the view of the configured override, when one is
/// set.
pub open spec fn comment_view(c: &Option<String>) -> Option<Seq<char>> {
    match c {
        Some(s) => Some(s@),
        None => None,
    }
}

/// One collected key entry: the parsed file text, with the comment
/// replaced by a configured non-empty override.
pub open spec fn spec_collected_key(s: Seq<char>, c: Option<Seq<char>>) -> Option<KeydataView> {
    match spec_parse_key_data(s) {
        None => None,
        Some(k) => Some(
            if c is Some && c->0.len() > 0 {
                KeydataView { key_type: k.key_type, key: k.key, comment: c->0 }
            } else {
                k
            },
        ),
    }
}

/// Assembles the key set to publish for this host: the configured
/// host names and one parsed entry per key file text, each with the
/// comment override applied. Fails exactly when some file text does
/// not parse.
pub fn collect_message(hostnames: Vec<String>, contents: &Vec<String>, comment: &Option<String>)
    -> (r: Option<Message>)
    ensures
        r is Some <==> (forall|i: int|
            0 <= i < contents@.len() ==> spec_parse_key_data(contents@[i]@) is Some),
        r is Some ==> r->0@.hostname == strings_view(hostnames@),
        r is Some ==> r->0@.keys.len() == contents@.len(),
        r is Some ==> forall|i: int|
            0 <= i < contents@.len() ==> r->0@.keys[i] == spec_collected_key(
                contents@[i]@,
                comment_view(comment),
            )->0,
{
    let mut keys: Vec<Keydata> = Vec::new();
    let n: usize = contents.len();
    let mut idx: usize = 0;
    while idx < n
        invariant
            n == contents@.len(),
            idx <= n,
            keys@.len() == idx,
            forall|i: int|
                0 <= i < idx ==> spec_parse_key_data(contents@[i]@) is Some,
            forall|i: int|
                0 <= i < idx ==> keys_view(keys@)[i] == spec_collected_key(
                    contents@[i]@,
                    comment_view(comment),
                )->0,
        decreases n - idx,
    {
        match parse_key_data(contents[idx].as_str()) {
            None => {
                return None;
            },
            Some(parsed) => {
                let mut entry = parsed;
                match comment {
                    Some(c) => {
                        if !c.as_str().is_empty() {
                            entry.comment = c.clone();
                        }
                    },
                    None => {},
                }
                let ghost entry_view = entry@;
                proof {
                    assert(entry_view =~= spec_collected_key(
                        contents@[idx as int]@,
                        comment_view(comment),
                    )->0);
                }
                let ghost prev = keys@;
                keys.push(entry);
                proof {
                    assert(keys@[idx as int]@ == entry_view);
                    assert(keys_view(keys@)[idx as int] == keys@[idx as int]@);
                    assert forall|i: int|
                        0 <= i < idx implies keys_view(keys@)[i] == spec_collected_key(
                        contents@[i]@,
                        comment_view(comment),
                    )->0 by {
                        assert(keys_view(prev)[i] == spec_collected_key(
                            contents@[i]@,
                            comment_view(comment),
                        )->0);
                        assert(keys@[i] == prev[i]);
                        assert(keys_view(keys@)[i] == keys@[i]@);
                        assert(keys_view(prev)[i] == prev[i]@);
                    }
                }
            },
        }
        idx += 1;
    }
    Some(Message { hostname: hostnames, keys: keys })
}

/// Whether a file name looks like a host public key file:
/// `ssh_host_*_key.pub`.
pub fn is_host_key_file(name: &str) -> (r: bool)
    ensures
        r == ("ssh_host_"@.is_prefix_of(name@) && "_key.pub"@.is_suffix_of(name@)),
{
    crate::text::has_prefix(name, "ssh_host_") && crate::text::has_suffix(name, "_key.pub")
}

} // verus!
