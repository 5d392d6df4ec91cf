//! Topic parsing: a message's topic is a hierarchical path whose final
//! segment names the host the payload belongs to.

use vstd::prelude::*;
use vstd::string::StrSliceExecFns;
use vstd::string::StringExecFns;

verus! {

/// The path segment after the last `/`, or the whole sequence when no
/// `/` occurs in it.
pub open spec fn tail_segment(t: Seq<char>) -> Seq<char>
    decreases t.len(),
{
    if t.len() == 0 {
        Seq::empty()
    } else if t.last() == '/' {
        Seq::empty()
    } else {
        tail_segment(t.drop_last()).push(t.last())
    }
}

/// Failure of host identifier derivation. An empty topic breaks the
/// producer contract and is reported instead of processed.
#[derive(Clone, Copy, PartialEq, Eq, Structural, Debug)]
pub enum TopicError {
    EmptyTopic,
}

proof fn lemma_tail_segment(t: Seq<char>, j: int)
    requires
        0 <= j <= t.len(),
        forall|k: int| j <= k < t.len() ==> t[k] != '/',
        j == 0 || t[j - 1] == '/',
    ensures
        tail_segment(t) == t.subrange(j, t.len() as int),
    decreases t.len(),
{
    if t.len() == 0 {
        assert(t.subrange(0, 0) =~= t);
    } else if j == t.len() {
        assert(t.last() == '/');
        assert(t.subrange(j, t.len() as int) =~= Seq::<char>::empty());
    } else {
        assert(t.last() != '/');
        lemma_tail_segment(t.drop_last(), j);
        assert(t.subrange(j, t.len() as int) =~= t.drop_last().subrange(
            j,
            t.drop_last().len() as int,
        ).push(t.last()));
    }
}

/// Derives the host identifier from a topic: the trailing path segment.
/// An empty topic is rejected; every other topic yields its tail
/// segment, which is empty when the topic ends in `/`.
pub fn host_identifier(topic: &str) -> (r: Result<String, TopicError>)
    ensures
        r is Ok <==> topic@.len() > 0,
        r is Ok ==> r->Ok_0@ == tail_segment(topic@),
{
    let n: usize = topic.unicode_len();
    if n == 0 {
        return Err(TopicError::EmptyTopic);
    }
    let mut j: usize = n;
    while j > 0 && topic.get_char(j - 1) != '/'
        invariant
            n == topic@.len(),
            j <= n,
            forall|k: int| j <= k < n ==> topic@[k] != '/',
        decreases j,
    {
        j -= 1;
    }
    proof {
        lemma_tail_segment(topic@, j as int);
    }
    Ok(topic.substring_char(j, n).to_owned())
}

/// The topic a producer publishes a host's material on: the base
/// topic with the host as one more path segment.
pub fn child_topic(base: &str, host: &str) -> (r: String)
    ensures
        r@ == base@ + seq!['/'] + host@,
{
    proof {
        reveal_strlit("/");
    }
    let mut t = base.to_owned();
    t.append("/");
    t.append(host);
    proof {
        assert(t@ =~= base@ + seq!['/'] + host@);
    }
    t
}

/// Producer and consumer agree: a topic built for a host hands that
/// host back to the consumer's parser, as long as the host name holds
/// no path separator - which `validate_hostname` enforces on the
/// publishing side.
pub proof fn lemma_child_topic_identifies_host(base: Seq<char>, host: Seq<char>)
    requires
        !host.contains('/'),
    ensures
        tail_segment(base + seq!['/'] + host) == host,
{
    let t = base + seq!['/'] + host;
    let j = base.len() as int + 1;
    assert(forall|k: int| j <= k < t.len() ==> t[k] != '/') by {
        assert(forall|m: int| 0 <= m < host.len() ==> host[m] != '/');
        assert(forall|k: int| j <= k < t.len() ==> t[k] == host[k - j]);
    }
    assert(t[j - 1] == '/');
    lemma_tail_segment(t, j);
    assert(t.subrange(j, t.len() as int) =~= host);
}

} // verus!
