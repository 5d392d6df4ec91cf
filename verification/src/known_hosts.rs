//! Trust file rendering: the reconciliation map serialized to the
//! `known_hosts` style line format, one line per key:
//! `<comma-joined hostnames> <key type> <key> <comment>`, each line
//! newline-terminated. Writing the rendered content to a temporary
//! file and renaming it over the target is left to the unverified rim.

use vstd::prelude::*;
use vstd::string::StringExecFns;

use crate::payload::KeydataView;
use crate::reconcile::ReconciliationMap;
use crate::text::{join_comma, join_comma_seq};

verus! {

/// One trust file line: the host name column, then the key's three
/// fields, separated by single spaces.
pub open spec fn line_of(hostnames: Seq<Seq<char>>, k: KeydataView) -> Seq<char> {
    join_comma_seq(hostnames) + seq![' '] + k.key_type + seq![' '] + k.key + seq![' ']
        + k.comment
}

/// The lines of one entry, one per key, in key order.
pub open spec fn key_lines(hostnames: Seq<Seq<char>>, ks: Seq<KeydataView>) -> Seq<Seq<char>>
    decreases ks.len(),
{
    if ks.len() == 0 {
        Seq::empty()
    } else {
        key_lines(hostnames, ks.drop_last()).push(line_of(hostnames, ks.last()))
    }
}

/// All lines of all entries, in storage order.
pub open spec fn all_lines(es: Seq<(Seq<char>, crate::payload::MessageView)>) -> Seq<Seq<char>>
    decreases es.len(),
{
    if es.len() == 0 {
        Seq::empty()
    } else {
        all_lines(es.drop_last()) + key_lines(es.last().1.hostname, es.last().1.keys)
    }
}

/// The lines concatenated, each terminated by a newline.
pub open spec fn render_lines(ls: Seq<Seq<char>>) -> Seq<char>
    decreases ls.len(),
{
    if ls.len() == 0 {
        Seq::empty()
    } else {
        render_lines(ls.drop_last()) + ls.last() + seq!['\n']
    }
}

/// The whole trust file. With no lines at all the file is a single
/// newline: the empty join, newline-terminated.
pub open spec fn trust_file_content(es: Seq<(Seq<char>, crate::payload::MessageView)>) -> Seq<
    char,
> {
    if all_lines(es).len() == 0 {
        seq!['\n']
    } else {
        render_lines(all_lines(es))
    }
}

proof fn lemma_render_lines_len(ls: Seq<Seq<char>>)
    ensures
        render_lines(ls).len() >= ls.len(),
    decreases ls.len(),
{
    if ls.len() > 0 {
        lemma_render_lines_len(ls.drop_last());
    }
}

/// Renders the map as the full trust file content. The file is always
/// rewritten whole; this function only builds the bytes-to-be.
pub fn known_hosts_content(map: &ReconciliationMap) -> (r: String)
    ensures
        r@ == trust_file_content(map.entry_seq()),
{
    let ghost es = map.entry_seq();
    let mut out = String::new();
    let n: usize = map.entries.len();
    let mut i: usize = 0;
    proof {
        reveal_strlit(" ");
        reveal_strlit("\n");
        assert(es.subrange(0, 0) =~= Seq::<(Seq<char>, crate::payload::MessageView)>::empty());
    }
    while i < n
        invariant
            n == map.entries@.len(),
            i <= n,
            es == map.entry_seq(),
            es.len() == n,
            out@ == render_lines(all_lines(es.subrange(0, i as int))),
            " "@ == seq![' '],
            "\n"@ == seq!['\n'],
        decreases n - i,
    {
        let hosts_joined = join_comma(&map.entries[i].1.hostname);
        let ghost hview = es[i as int].1.hostname;
        let ghost kviews = es[i as int].1.keys;
        proof {
            assert(hosts_joined@ == join_comma_seq(hview));
            assert(kviews.subrange(0, 0) =~= Seq::<KeydataView>::empty());
            assert(all_lines(es.subrange(0, i as int)) + key_lines(hview, kviews.subrange(0, 0))
                =~= all_lines(es.subrange(0, i as int)));
        }
        let m: usize = map.entries[i].1.keys.len();
        let mut j: usize = 0;
        while j < m
            invariant
                n == map.entries@.len(),
                i < n,
                es == map.entry_seq(),
                es.len() == n,
                m == map.entries@[i as int].1.keys@.len(),
                j <= m,
                hview == es[i as int].1.hostname,
                kviews == es[i as int].1.keys,
                kviews.len() == m,
                hosts_joined@ == join_comma_seq(hview),
                out@ == render_lines(
                    all_lines(es.subrange(0, i as int)) + key_lines(
                        hview,
                        kviews.subrange(0, j as int),
                    ),
                ),
                " "@ == seq![' '],
                "\n"@ == seq!['\n'],
            decreases m - j,
        {
            out.append(hosts_joined.as_str());
            out.append(" ");
            out.append(map.entries[i].1.keys[j].key_type.as_str());
            out.append(" ");
            out.append(map.entries[i].1.keys[j].key.as_str());
            out.append(" ");
            out.append(map.entries[i].1.keys[j].comment.as_str());
            out.append("\n");
            proof {
                let pre = key_lines(hview, kviews.subrange(0, j as int));
                let post = key_lines(hview, kviews.subrange(0, j as int + 1));
                assert(kviews.subrange(0, j as int + 1).drop_last() =~= kviews.subrange(
                    0,
                    j as int,
                ));
                assert(kviews.subrange(0, j as int + 1).last() == kviews[j as int]);
                assert(post == pre.push(line_of(hview, kviews[j as int])));
                let base = all_lines(es.subrange(0, i as int));
                assert(base + post =~= (base + pre).push(line_of(hview, kviews[j as int])));
                assert((base + pre).push(line_of(hview, kviews[j as int])).drop_last() =~= base
                    + pre);
                assert(out@ =~= render_lines(base + post));
            }
            j += 1;
        }
        proof {
            assert(kviews.subrange(0, m as int) =~= kviews);
            assert(es.subrange(0, i as int + 1).drop_last() =~= es.subrange(0, i as int));
            assert(es.subrange(0, i as int + 1).last() == es[i as int]);
            assert(all_lines(es.subrange(0, i as int + 1)) == all_lines(es.subrange(0, i as int))
                + key_lines(hview, kviews));
        }
        i += 1;
    }
    proof {
        assert(es.subrange(0, n as int) =~= es);
    }
    if out.as_str().is_empty() {
        proof {
            lemma_render_lines_len(all_lines(es));
        }
        out.append("\n");
        out
    } else {
        proof {
            if all_lines(es).len() == 0 {
                assert(out@.len() == 0);
            }
        }
        out
    }
}

/// The default trust file path used when the configuration names none.
pub fn default_ssh_known_hosts_file() -> (r: String)
    ensures
        r@ == "/etc/ssh/ssh_known_hosts"@,
{
    "/etc/ssh/ssh_known_hosts".to_owned()
}

} // verus!
