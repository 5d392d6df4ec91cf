//! Reconciliation engine: the authoritative per-host key map and the
//! update/delete semantics that fold an event stream into it.
//!
//! Each event carries a topic, whose tail segment names a host, and a
//! payload. An empty payload deletes the host's entry; a parsed key set
//! document with keys replaces it (or is a no-op when nothing changed);
//! a document without keys deletes; a payload that failed to parse is
//! dropped. The outcome says whether the trust file must be rewritten.

use vstd::prelude::*;
use vstd::pervasive::VecAdditionalExecFns;

use crate::payload::{Message, MessageView};
use crate::topic::{host_identifier, tail_segment, TopicError};

verus! {

/// What applying one event did to the map. Only `NoChange` leaves the
/// materialized trust file as it is.
#[derive(Clone, Copy, PartialEq, Eq, Structural, Debug)]
pub enum ApplyOutcome {
    NoChange,
    Upserted,
    Removed,
}

/// One received payload after transport decoding: empty (a delete
/// signal), undecodable, or a parsed key set document.
pub enum PayloadEvent {
    Empty,
    Malformed,
    Document(Message),
}

/// Spec-level image of a payload event.
pub enum PayloadEventView {
    Empty,
    Malformed,
    Document(MessageView),
}

impl View for PayloadEvent {
    type V = PayloadEventView;

    open spec fn view(&self) -> PayloadEventView {
        match self {
            PayloadEvent::Empty => PayloadEventView::Empty,
            PayloadEvent::Malformed => PayloadEventView::Malformed,
            PayloadEvent::Document(m) => PayloadEventView::Document(m@),
        }
    }
}

/// A delete signal: drops the host's entry when present, and reports
/// whether anything was dropped.
pub open spec fn spec_delete(m: Map<Seq<char>, MessageView>, host: Seq<char>) -> (
    Map<Seq<char>, MessageView>,
    ApplyOutcome,
) {
    if m.contains_key(host) {
        (m.remove(host), ApplyOutcome::Removed)
    } else {
        (m, ApplyOutcome::NoChange)
    }
}

/// What one event does to the authoritative map: the new map and the
/// reported outcome.
pub open spec fn spec_apply(
    m: Map<Seq<char>, MessageView>,
    host: Seq<char>,
    ev: PayloadEventView,
) -> (Map<Seq<char>, MessageView>, ApplyOutcome) {
    match ev {
        PayloadEventView::Malformed => (m, ApplyOutcome::NoChange),
        PayloadEventView::Empty => spec_delete(m, host),
        PayloadEventView::Document(d) => if d.keys.len() == 0 {
            spec_delete(m, host)
        } else if m.contains_key(host) && m[host] == d {
            (m, ApplyOutcome::NoChange)
        } else {
            (m.insert(host, d), ApplyOutcome::Upserted)
        },
    }
}

/// No two stored entries share a host identifier.
pub open spec fn unique_hosts(s: Seq<(String, Message)>) -> bool {
    forall|i: int, j: int| 0 <= i < j < s.len() ==> s[i].0@ != s[j].0@
}

/// The mapping an entry list denotes: later entries would win, but the
/// engine keeps host identifiers unique, so each key occurs once.
pub open spec fn map_of(s: Seq<(String, Message)>) -> Map<Seq<char>, MessageView>
    decreases s.len(),
{
    if s.len() == 0 {
        Map::empty()
    } else {
        map_of(s.drop_last()).insert(s.last().0@, s.last().1@)
    }
}

proof fn lemma_map_of_contains(s: Seq<(String, Message)>, k: Seq<char>)
    ensures
        map_of(s).contains_key(k) <==> exists|i: int| 0 <= i < s.len() && s[i].0@ == k,
    decreases s.len(),
{
    if s.len() > 0 {
        lemma_map_of_contains(s.drop_last(), k);
        if s.last().0@ == k {
            assert(s[s.len() - 1].0@ == k);
        } else if map_of(s).contains_key(k) {
            let i = choose|i: int| 0 <= i < s.drop_last().len() && s.drop_last()[i].0@ == k;
            assert(s[i].0@ == k);
        } else if exists|i: int| 0 <= i < s.len() && s[i].0@ == k {
            let i = choose|i: int| 0 <= i < s.len() && s[i].0@ == k;
            assert(i < s.len() - 1);
            assert(s.drop_last()[i].0@ == k);
        }
    }
}

proof fn lemma_map_of_index(s: Seq<(String, Message)>, i: int)
    requires
        unique_hosts(s),
        0 <= i < s.len(),
    ensures
        map_of(s).contains_key(s[i].0@),
        map_of(s)[s[i].0@] == s[i].1@,
    decreases s.len(),
{
    if i < s.len() - 1 {
        assert(unique_hosts(s.drop_last())) by {
            assert(forall|a: int, b: int|
                0 <= a < b < s.drop_last().len() ==> s.drop_last()[a].0@ != s.drop_last()[b].0@);
        }
        lemma_map_of_index(s.drop_last(), i);
        assert(s[i].0@ != s.last().0@);
    }
}

proof fn lemma_map_of_update(s: Seq<(String, Message)>, i: int, p: (String, Message))
    requires
        unique_hosts(s),
        0 <= i < s.len(),
        p.0@ == s[i].0@,
    ensures
        map_of(s.update(i, p)) == map_of(s).insert(p.0@, p.1@),
        unique_hosts(s.update(i, p)),
    decreases s.len(),
{
    let t = s.update(i, p);
    assert(unique_hosts(t));
    if i == s.len() - 1 {
        assert(t.drop_last() =~= s.drop_last());
        assert(t.last() == p);
        assert(map_of(s).insert(p.0@, p.1@) =~= map_of(s.drop_last()).insert(p.0@, p.1@));
    } else {
        assert(unique_hosts(s.drop_last())) by {
            assert(forall|a: int, b: int|
                0 <= a < b < s.drop_last().len() ==> s.drop_last()[a].0@ != s.drop_last()[b].0@);
        }
        lemma_map_of_update(s.drop_last(), i, p);
        assert(t.drop_last() =~= s.drop_last().update(i, p));
        assert(t.last() == s.last());
        assert(s[i].0@ != s.last().0@);
        assert(map_of(s.drop_last()).insert(p.0@, p.1@).insert(s.last().0@, s.last().1@)
            =~= map_of(s.drop_last()).insert(s.last().0@, s.last().1@).insert(p.0@, p.1@));
    }
}

proof fn lemma_map_of_remove(s: Seq<(String, Message)>, i: int)
    requires
        unique_hosts(s),
        0 <= i < s.len(),
    ensures
        map_of(s.remove(i)) == map_of(s).remove(s[i].0@),
        unique_hosts(s.remove(i)),
    decreases s.len(),
{
    let t = s.remove(i);
    assert(unique_hosts(t)) by {
        assert(forall|a: int, b: int| 0 <= a < b < t.len() ==> t[a].0@ != t[b].0@) by {
            assert(forall|a: int| 0 <= a < t.len() ==> t[a] == (if a < i {
                s[a]
            } else {
                s[a + 1]
            }));
        }
    }
    if i == s.len() - 1 {
        assert(t =~= s.drop_last());
        lemma_map_of_contains(s.drop_last(), s[i].0@);
        assert(forall|a: int| 0 <= a < s.drop_last().len() ==> s.drop_last()[a].0@ != s[i].0@);
        assert(!map_of(s.drop_last()).contains_key(s[i].0@));
        assert(map_of(s).remove(s[i].0@) =~= map_of(s.drop_last()));
    } else {
        assert(unique_hosts(s.drop_last())) by {
            assert(forall|a: int, b: int|
                0 <= a < b < s.drop_last().len() ==> s.drop_last()[a].0@ != s.drop_last()[b].0@);
        }
        lemma_map_of_remove(s.drop_last(), i);
        assert(t.drop_last() =~= s.drop_last().remove(i));
        assert(t.last() == s.last());
        assert(s[i].0@ != s.last().0@);
        assert(map_of(s.drop_last()).remove(s[i].0@).insert(s.last().0@, s.last().1@)
            =~= map_of(s.drop_last()).insert(s.last().0@, s.last().1@).remove(s[i].0@));
    }
}

proof fn lemma_map_of_push(s: Seq<(String, Message)>, p: (String, Message))
    ensures
        map_of(s.push(p)) == map_of(s).insert(p.0@, p.1@),
{
    assert(s.push(p).drop_last() =~= s);
    assert(s.push(p).last() == p);
}

/// Applying the same key set document twice for a host yields
/// `Upserted` and then `NoChange`: redelivery of identical state is a
/// no-op and triggers exactly one rewrite. The first outcome is
/// `Upserted` whenever the host did not already store that document.
pub proof fn lemma_update_idempotent(
    m: Map<Seq<char>, MessageView>,
    host: Seq<char>,
    d: MessageView,
)
    requires
        d.keys.len() > 0,
    ensures
        spec_apply(
            spec_apply(m, host, PayloadEventView::Document(d)).0,
            host,
            PayloadEventView::Document(d),
        ).0 == spec_apply(m, host, PayloadEventView::Document(d)).0,
        spec_apply(
            spec_apply(m, host, PayloadEventView::Document(d)).0,
            host,
            PayloadEventView::Document(d),
        ).1 == ApplyOutcome::NoChange,
        !(m.contains_key(host) && m[host] == d) ==> spec_apply(
            m,
            host,
            PayloadEventView::Document(d),
        ).1 == ApplyOutcome::Upserted,
{
}

/// A delete signal for an absent host changes nothing and reports
/// `NoChange`; for a present host it reports `Removed` and the host
/// no longer appears in the map.
pub proof fn lemma_delete_safety(m: Map<Seq<char>, MessageView>, host: Seq<char>)
    ensures
        !m.contains_key(host) ==> spec_apply(m, host, PayloadEventView::Empty).0 == m,
        !m.contains_key(host) ==> spec_apply(m, host, PayloadEventView::Empty).1
            == ApplyOutcome::NoChange,
        m.contains_key(host) ==> spec_apply(m, host, PayloadEventView::Empty).0 == m.remove(host),
        m.contains_key(host) ==> spec_apply(m, host, PayloadEventView::Empty).1
            == ApplyOutcome::Removed,
        !spec_apply(m, host, PayloadEventView::Empty).0.contains_key(host),
{
}

/// A payload that failed to parse is dropped: the map is untouched, no
/// rewrite is signalled, and any later event behaves exactly as if the
/// malformed one had never arrived.
pub proof fn lemma_malformed_dropped(
    m: Map<Seq<char>, MessageView>,
    host: Seq<char>,
    later_host: Seq<char>,
    later: PayloadEventView,
)
    ensures
        spec_apply(m, host, PayloadEventView::Malformed).0 == m,
        spec_apply(m, host, PayloadEventView::Malformed).1 == ApplyOutcome::NoChange,
        spec_apply(spec_apply(m, host, PayloadEventView::Malformed).0, later_host, later)
            == spec_apply(m, later_host, later),
{
}

/// The trust file is rewritten exactly when something changed:
/// `NoChange` is reported precisely for the events that leave the map
/// as it was, so skipping the materializer on `NoChange` loses
/// nothing, and every `Upserted` or `Removed` marks a real change.
pub proof fn lemma_rewrite_signal(
    m: Map<Seq<char>, MessageView>,
    host: Seq<char>,
    ev: PayloadEventView,
)
    ensures
        spec_apply(m, host, ev).1 == ApplyOutcome::NoChange <==> spec_apply(m, host, ev).0 == m,
{
    match ev {
        PayloadEventView::Malformed => {},
        PayloadEventView::Empty => {
            lemma_changed_delete(m, host);
        },
        PayloadEventView::Document(d) => {
            if d.keys.len() == 0 {
                lemma_changed_delete(m, host);
            } else if m.contains_key(host) && m[host] == d {
            } else {
                if m.insert(host, d) == m {
                    assert(m.insert(host, d)[host] == d);
                }
            }
        },
    }
}

proof fn lemma_changed_delete(m: Map<Seq<char>, MessageView>, host: Seq<char>)
    ensures
        spec_delete(m, host).1 == ApplyOutcome::NoChange <==> spec_delete(m, host).0 == m,
{
    if m.contains_key(host) {
        if m.remove(host) == m {
            assert(!m.remove(host).contains_key(host));
        }
    }
}

/// The map after a whole stream of events, applied in arrival order.
pub open spec fn apply_all(
    m: Map<Seq<char>, MessageView>,
    evs: Seq<(Seq<char>, PayloadEventView)>,
) -> Map<Seq<char>, MessageView>
    decreases evs.len(),
{
    if evs.len() == 0 {
        m
    } else {
        spec_apply(apply_all(m, evs.drop_last()), evs.last().0, evs.last().1).0
    }
}

/// Whether an event takes part in last-write-wins: malformed payloads
/// are dropped and count for nothing.
pub open spec fn effective(ev: PayloadEventView) -> bool {
    !(ev is Malformed)
}

/// The state an effective event leaves for its host: a delete signal
/// and a document without keys leave none, a document with keys leaves
/// that document.
pub open spec fn event_effect(ev: PayloadEventView) -> Option<MessageView> {
    match ev {
        PayloadEventView::Empty => None,
        PayloadEventView::Malformed => None,
        PayloadEventView::Document(d) => if d.keys.len() == 0 {
            None
        } else {
            Some(d)
        },
    }
}

/// The last logically effective state for one host: what the latest
/// effective event addressed to it leaves, or the starting state when
/// no such event occurs in the stream.
pub open spec fn last_effective_state(
    m: Map<Seq<char>, MessageView>,
    evs: Seq<(Seq<char>, PayloadEventView)>,
    h: Seq<char>,
) -> Option<MessageView>
    decreases evs.len(),
{
    if evs.len() == 0 {
        if m.contains_key(h) {
            Some(m[h])
        } else {
            None
        }
    } else if evs.last().0 == h && effective(evs.last().1) {
        event_effect(evs.last().1)
    } else {
        last_effective_state(m, evs.drop_last(), h)
    }
}

/// One event only touches its own host's entry.
pub proof fn lemma_apply_frame(
    m: Map<Seq<char>, MessageView>,
    host: Seq<char>,
    ev: PayloadEventView,
    k: Seq<char>,
)
    requires
        k != host,
    ensures
        spec_apply(m, host, ev).0.contains_key(k) == m.contains_key(k),
        m.contains_key(k) ==> spec_apply(m, host, ev).0[k] == m[k],
{
}

/// Convergence: for any interleaving of update and delete events, the
/// final map holds, for each host, exactly the last logically
/// effective state published for it - last write wins, with a document
/// without keys equivalent to a delete.
pub proof fn lemma_convergence(
    m: Map<Seq<char>, MessageView>,
    evs: Seq<(Seq<char>, PayloadEventView)>,
    h: Seq<char>,
)
    ensures
        apply_all(m, evs).contains_key(h) <==> last_effective_state(m, evs, h) is Some,
        last_effective_state(m, evs, h) is Some ==> apply_all(m, evs)[h] == last_effective_state(
            m,
            evs,
            h,
        )->0,
    decreases evs.len(),
{
    if evs.len() > 0 {
        let prev = apply_all(m, evs.drop_last());
        lemma_convergence(m, evs.drop_last(), h);
        let eh = evs.last().0;
        let ev = evs.last().1;
        if eh == h && effective(ev) {
        } else if eh != h {
            lemma_apply_frame(prev, eh, ev, h);
        }
    }
}

/// The authoritative per-host key map: the sole state of the consumer,
/// rebuilt from broker traffic on each process start. Entries are kept
/// as a list with unique host identifiers; its meaning is the mapping
/// `map_of` builds from it.
pub struct ReconciliationMap {
    pub entries: Vec<(String, Message)>,
}

impl View for ReconciliationMap {
    type V = Map<Seq<char>, MessageView>;

    open spec fn view(&self) -> Map<Seq<char>, MessageView> {
        map_of(self.entries@)
    }
}

impl ReconciliationMap {
    /// Host identifiers are unique across stored entries.
    pub open spec fn wf(self) -> bool {
        unique_hosts(self.entries@)
    }

    /// The stored entries, in storage order, as (host, key set) views.
    /// The trust file renderer walks them in this order.
    pub open spec fn entry_seq(self) -> Seq<(Seq<char>, MessageView)> {
        self.entries@.map_values(|p: (String, Message)| (p.0@, p.1@))
    }

    /// An empty map.
    pub fn new() -> (r: Self)
        ensures
            r.wf(),
            r@ =~= Map::<Seq<char>, MessageView>::empty(),
            r.entry_seq() =~= Seq::<(Seq<char>, MessageView)>::empty(),
    {
        ReconciliationMap { entries: Vec::new() }
    }

    /// The number of hosts with an entry.
    pub fn len(&self) -> (n: usize)
        requires
            self.wf(),
        ensures
            n == self.entry_seq().len(),
    {
        self.entries.len()
    }

    fn find_index(&self, host: &String) -> (r: Option<usize>)
        ensures
            match r {
                Some(i) => i < self.entries@.len() && self.entries@[i as int].0@ == host@,
                None => forall|i: int| 0 <= i < self.entries@.len() ==> self.entries@[i].0@ != host@,
            },
    {
        let n: usize = self.entries.len();
        let mut i: usize = 0;
        while i < n
            invariant
                n == self.entries@.len(),
                i <= n,
                forall|j: int| 0 <= j < i ==> self.entries@[j].0@ != host@,
            decreases n - i,
        {
            if self.entries[i].0 == *host {
                return Some(i);
            }
            i += 1;
        }
        None
    }

    /// The stored key set for a host, when one is present.
    pub fn get(&self, host: &String) -> (r: Option<&Message>)
        requires
            self.wf(),
        ensures
            match r {
                Some(m) => self@.contains_key(host@) && m@ == self@[host@],
                None => !self@.contains_key(host@),
            },
    {
        proof {
            lemma_map_of_contains(self.entries@, host@);
        }
        match self.find_index(host) {
            Some(i) => {
                proof {
                    lemma_map_of_index(self.entries@, i as int);
                }
                Some(&self.entries[i].1)
            },
            None => None,
        }
    }

    /// Removes the host's entry when present; reports `Removed` exactly
    /// when an entry was dropped.
    fn delete_host(&mut self, host: &String) -> (r: ApplyOutcome)
        requires
            old(self).wf(),
        ensures
            final(self).wf(),
            final(self)@ == spec_delete(old(self)@, host@).0,
            r == spec_delete(old(self)@, host@).1,
            r == ApplyOutcome::NoChange ==> *final(self) == *old(self),
    {
        proof {
            lemma_map_of_contains(self.entries@, host@);
        }
        match self.find_index(host) {
            Some(i) => {
                proof {
                    lemma_map_of_remove(self.entries@, i as int);
                }
                self.entries.remove(i);
                ApplyOutcome::Removed
            },
            None => ApplyOutcome::NoChange,
        }
    }

    /// Stores the key set for the host, replacing any previous entry.
    fn upsert_host(&mut self, host: String, data: Message) -> (r: ApplyOutcome)
        requires
            old(self).wf(),
        ensures
            final(self).wf(),
            final(self)@ == old(self)@.insert(host@, data@),
            r == ApplyOutcome::Upserted,
    {
        match self.find_index(&host) {
            Some(i) => {
                proof {
                    lemma_map_of_update(self.entries@, i as int, (host, data));
                }
                self.entries.set(i, (host, data));
            },
            None => {
                proof {
                    lemma_map_of_push(self.entries@, (host, data));
                    assert(unique_hosts(self.entries@.push((host, data)))) by {
                        let t = self.entries@.push((host, data));
                        assert(forall|a: int, b: int|
                            0 <= a < b < t.len() ==> t[a].0@ != t[b].0@);
                    }
                }
                self.entries.push((host, data));
            },
        }
        ApplyOutcome::Upserted
    }

    /// Applies one event: derives the host from the topic's tail
    /// segment, then folds the payload into the map as `spec_apply`
    /// says. Only an empty topic is rejected; a malformed payload is
    /// dropped without touching the map.
    pub fn apply(&mut self, topic: &str, event: PayloadEvent) -> (r: Result<
        ApplyOutcome,
        TopicError,
    >)
        requires
            old(self).wf(),
        ensures
            final(self).wf(),
            r is Err <==> topic@.len() == 0,
            r is Err ==> *final(self) == *old(self),
            r is Ok ==> final(self)@ == spec_apply(old(self)@, tail_segment(topic@), event@).0,
            r is Ok ==> r->Ok_0 == spec_apply(old(self)@, tail_segment(topic@), event@).1,
            r == Ok::<ApplyOutcome, TopicError>(ApplyOutcome::NoChange) ==> *final(self)
                == *old(self),
    {
        let host = match host_identifier(topic) {
            Ok(h) => h,
            Err(e) => {
                return Err(e);
            },
        };
        match event {
            PayloadEvent::Malformed => Ok(ApplyOutcome::NoChange),
            PayloadEvent::Empty => Ok(self.delete_host(&host)),
            PayloadEvent::Document(d) => {
                if d.keys.len() == 0 {
                    Ok(self.delete_host(&host))
                } else {
                    proof {
                        lemma_map_of_contains(self.entries@, host@);
                    }
                    match self.find_index(&host) {
                        Some(i) => {
                            proof {
                                lemma_map_of_index(self.entries@, i as int);
                            }
                            if self.entries[i].1 == d {
                                Ok(ApplyOutcome::NoChange)
                            } else {
                                Ok(self.upsert_host(host, d))
                            }
                        },
                        None => Ok(self.upsert_host(host, d)),
                    }
                }
            },
        }
    }
}

} // verus!
