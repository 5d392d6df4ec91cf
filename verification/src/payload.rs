//! Wire payload data model: the key material one producer publishes for
//! one host, as carried in an update message on the bus.

use vstd::prelude::*;

verus! {

/// Spec-level image of one public key entry.
#[verifier::ext_equal]
pub struct KeydataView {
    pub key_type: Seq<char>,
    pub key: Seq<char>,
    pub comment: Seq<char>,
}

/// Spec-level image of a whole per-host key set.
#[verifier::ext_equal]
pub struct MessageView {
    pub hostname: Seq<Seq<char>>,
    pub keys: Seq<KeydataView>,
}

/// One public key entry: key type, key material and a free-form comment.
pub struct Keydata {
    pub key_type: String,
    pub key: String,
    pub comment: String,
}

/// A per-host key set: the host's name aliases and its key entries.
/// Equality is structural and order-sensitive; it decides whether a
/// redelivered update is a no-op.
pub struct Message {
    pub hostname: Vec<String>,
    pub keys: Vec<Keydata>,
}

/// The views of a sequence of strings.
pub open spec fn strings_view(v: Seq<String>) -> Seq<Seq<char>> {
    v.map_values(|s: String| s@)
}

/// The views of a sequence of key entries.
pub open spec fn keys_view(v: Seq<Keydata>) -> Seq<KeydataView> {
    v.map_values(|k: Keydata| k@)
}

impl View for Keydata {
    type V = KeydataView;

    open spec fn view(&self) -> KeydataView {
        KeydataView { key_type: self.key_type@, key: self.key@, comment: self.comment@ }
    }
}

impl View for Message {
    type V = MessageView;

    open spec fn view(&self) -> MessageView {
        MessageView { hostname: strings_view(self.hostname@), keys: keys_view(self.keys@) }
    }
}

impl Keydata {
    /// An entry with all three fields empty.
    pub fn new() -> (r: Self)
        ensures
            r@.key_type =~= Seq::<char>::empty(),
            r@.key =~= Seq::<char>::empty(),
            r@.comment =~= Seq::<char>::empty(),
    {
        Keydata { key_type: String::new(), key: String::new(), comment: String::new() }
    }
}

impl Message {
    /// A key set with no host names and no keys.
    pub fn new() -> (r: Self)
        ensures
            r@.hostname =~= Seq::<Seq<char>>::empty(),
            r@.keys =~= Seq::<KeydataView>::empty(),
    {
        let r = Message { hostname: Vec::new(), keys: Vec::new() };
        proof {
            assert(r@.hostname =~= Seq::<Seq<char>>::empty());
            assert(r@.keys =~= Seq::<KeydataView>::empty());
        }
        r
    }
}

impl PartialEq for Keydata {
    fn eq(&self, other: &Self) -> (r: bool) {
        let r = self.key_type == other.key_type && self.key == other.key
            && self.comment == other.comment;
        proof {
            if r {
                assert(self@ =~= other@);
            }
        }
        r
    }
}

impl vstd::std_specs::cmp::PartialEqSpecImpl for Keydata {
    open spec fn obeys_eq_spec() -> bool {
        true
    }

    open spec fn eq_spec(&self, other: &Self) -> bool {
        self@ == other@
    }
}

/// Order-sensitive equality of two string vectors, by contents.
fn vec_string_eq(a: &Vec<String>, b: &Vec<String>) -> (r: bool)
    ensures
        r == (strings_view(a@) == strings_view(b@)),
{
    if a.len() != b.len() {
        return false;
    }
    let n: usize = a.len();
    let mut i: usize = 0;
    while i < n
        invariant
            n == a.len() == b.len(),
            i <= n,
            forall|j: int| 0 <= j < i ==> a@[j]@ == b@[j]@,
        decreases n - i,
    {
        if !(a[i] == b[i]) {
            assert(strings_view(a@)[i as int] != strings_view(b@)[i as int]);
            return false;
        }
        i += 1;
    }
    proof {
        assert(strings_view(a@) =~= strings_view(b@));
    }
    true
}

/// Order-sensitive equality of two key entry vectors, by contents.
fn vec_keydata_eq(a: &Vec<Keydata>, b: &Vec<Keydata>) -> (r: bool)
    ensures
        r == (keys_view(a@) == keys_view(b@)),
{
    if a.len() != b.len() {
        return false;
    }
    let n: usize = a.len();
    let mut i: usize = 0;
    while i < n
        invariant
            n == a.len() == b.len(),
            i <= n,
            forall|j: int| 0 <= j < i ==> a@[j]@ == b@[j]@,
        decreases n - i,
    {
        if !(a[i] == b[i]) {
            assert(keys_view(a@)[i as int] != keys_view(b@)[i as int]);
            return false;
        }
        i += 1;
    }
    proof {
        assert(keys_view(a@) =~= keys_view(b@));
    }
    true
}

impl PartialEq for Message {
    fn eq(&self, other: &Self) -> (r: bool) {
        let r = vec_string_eq(&self.hostname, &other.hostname)
            && vec_keydata_eq(&self.keys, &other.keys);
        proof {
            if r {
                assert(self@ =~= other@);
            }
        }
        r
    }
}

impl vstd::std_specs::cmp::PartialEqSpecImpl for Message {
    open spec fn obeys_eq_spec() -> bool {
        true
    }

    open spec fn eq_spec(&self, other: &Self) -> bool {
        self@ == other@
    }
}

} // verus!
