//! Small verified string helpers: character search, prefix and suffix
//! tests, comma joining and trailing-slash trimming. The configuration
//! rules, the topic parser and the trust file renderer build on these.

use vstd::prelude::*;
use vstd::string::StrSliceExecFns;
use vstd::string::StringExecFns;

use crate::payload::strings_view;

verus! {

/// Whether the character sequence holds `c` anywhere.
pub fn contains_char(s: &str, c: char) -> (r: bool)
    ensures
        r == s@.contains(c),
{
    let n: usize = s.unicode_len();
    let mut i: usize = 0;
    while i < n
        invariant
            n == s@.len(),
            i <= n,
            forall|j: int| 0 <= j < i ==> s@[j] != c,
        decreases n - i,
    {
        if s.get_char(i) == c {
            return true;
        }
        i += 1;
    }
    proof {
        assert(!s@.contains(c));
    }
    false
}

/// Whether `p` is a prefix of `s`, character by character.
pub fn has_prefix(s: &str, p: &str) -> (r: bool)
    ensures
        r == p@.is_prefix_of(s@),
{
    let np: usize = p.unicode_len();
    let ns: usize = s.unicode_len();
    if np > ns {
        return false;
    }
    let mut i: usize = 0;
    while i < np
        invariant
            np == p@.len(),
            ns == s@.len(),
            np <= ns,
            i <= np,
            forall|j: int| 0 <= j < i ==> s@[j] == p@[j],
        decreases np - i,
    {
        if s.get_char(i) != p.get_char(i) {
            assert(s@.subrange(0, np as int)[i as int] != p@[i as int]);
            return false;
        }
        i += 1;
    }
    proof {
        assert(s@.subrange(0, np as int) =~= p@);
    }
    true
}

/// Whether `p` is a suffix of `s`, character by character.
pub fn has_suffix(s: &str, p: &str) -> (r: bool)
    ensures
        r == p@.is_suffix_of(s@),
{
    let np: usize = p.unicode_len();
    let ns: usize = s.unicode_len();
    if np > ns {
        return false;
    }
    let off: usize = ns - np;
    let mut i: usize = 0;
    while i < np
        invariant
            np == p@.len(),
            ns == s@.len(),
            off == ns - np,
            i <= np,
            forall|j: int| 0 <= j < i ==> s@[off + j] == p@[j],
        decreases np - i,
    {
        if s.get_char(off + i) != p.get_char(i) {
            assert(s@.subrange(off as int, ns as int)[i as int] != p@[i as int]);
            return false;
        }
        i += 1;
    }
    proof {
        assert(s@.subrange(off as int, ns as int) =~= p@);
    }
    true
}

/// The parts joined with a single comma between neighbours.
pub open spec fn join_comma_seq(parts: Seq<Seq<char>>) -> Seq<char>
    decreases parts.len(),
{
    if parts.len() == 0 {
        Seq::empty()
    } else if parts.len() == 1 {
        parts[0]
    } else {
        join_comma_seq(parts.drop_last()) + seq![','] + parts.last()
    }
}

/// Joins the strings with commas, as the trust file's host name column.
pub fn join_comma(v: &Vec<String>) -> (r: String)
    ensures
        r@ == join_comma_seq(strings_view(v@)),
{
    let ghost parts = strings_view(v@);
    let mut out = String::new();
    let n: usize = v.len();
    let mut i: usize = 0;
    proof {
        reveal_strlit(",");
        assert(parts.subrange(0, 0) =~= Seq::<Seq<char>>::empty());
    }
    while i < n
        invariant
            n == v.len(),
            i <= n,
            parts == strings_view(v@),
            parts.len() == n,
            out@ == join_comma_seq(parts.subrange(0, i as int)),
            ","@ == seq![','],
        decreases n - i,
    {
        if i > 0 {
            out.append(",");
        }
        out.append(v[i].as_str());
        proof {
            let pre = parts.subrange(0, i as int);
            let post = parts.subrange(0, i as int + 1);
            assert(post.drop_last() =~= pre);
            assert(post.last() == parts[i as int]);
            assert(out@ =~= join_comma_seq(post));
        }
        i += 1;
    }
    proof {
        assert(parts.subrange(0, n as int) =~= parts);
    }
    out
}

/// The sequence without its trailing `/` characters.
pub open spec fn trim_trailing_slashes_seq(t: Seq<char>) -> Seq<char>
    decreases t.len(),
{
    if t.len() > 0 && t.last() == '/' {
        trim_trailing_slashes_seq(t.drop_last())
    } else {
        t
    }
}

proof fn lemma_trim_trailing_slashes(t: Seq<char>, j: int)
    requires
        0 <= j <= t.len(),
        forall|k: int| j <= k < t.len() ==> t[k] == '/',
        j == 0 || t[j - 1] != '/',
    ensures
        trim_trailing_slashes_seq(t) == t.subrange(0, j),
    decreases t.len(),
{
    if t.len() == 0 {
        assert(t.subrange(0, 0) =~= t);
    } else if j == t.len() {
        assert(t.last() != '/');
        assert(t.subrange(0, j) =~= t);
    } else {
        assert(t.last() == '/');
        lemma_trim_trailing_slashes(t.drop_last(), j);
        assert(t.drop_last().subrange(0, j) =~= t.subrange(0, j));
    }
}

/// The string without its trailing slashes; configured topics are
/// normalised this way before use.
pub fn trim_trailing_slashes(s: &str) -> (r: String)
    ensures
        r@ == trim_trailing_slashes_seq(s@),
{
    let n: usize = s.unicode_len();
    let mut j: usize = n;
    while j > 0 && s.get_char(j - 1) == '/'
        invariant
            n == s@.len(),
            j <= n,
            forall|k: int| j <= k < n ==> s@[k] == '/',
        decreases j,
    {
        j -= 1;
    }
    proof {
        lemma_trim_trailing_slashes(s@, j as int);
    }
    s.substring_char(0, j).to_owned()
}

} // verus!
