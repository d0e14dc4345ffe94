//! Host fields keyed by lower-cased text, deduplicated as `ssh -G` reads a
//! file: the first value of a key wins.
use crate::chars::{str_eq, string_from};
use vstd::prelude::*;

verus! {

/// A key, lower-cased, and its value.
#[derive(Debug, PartialEq)]
pub struct Field {
    key: String,
    value: String,
}

/// The lower-case form that `str::to_lowercase` gives of a text.
pub uninterp spec fn lowercase(s: Seq<char>) -> Seq<char>;

/// `str::to_lowercase`: the Unicode lower-case form of `s`, which the
/// contract names without stating.
#[verifier::external_body]
fn to_lowercase(s: &str) -> (r: String)
    ensures
        r@ == lowercase(s@),
{
    s.to_lowercase()
}

/// Whether some field has key `k`.
pub open spec fn holds_key(fs: Seq<(Seq<char>, Seq<char>)>, k: Seq<char>) -> bool {
    exists|i: int| 0 <= i < fs.len() && #[trigger] fs[i].0 == k
}

/// The position of the first field with key `k`, from `i` on.
pub open spec fn first_key_from(fs: Seq<(Seq<char>, Seq<char>)>, k: Seq<char>, i: int) -> Option<int>
    decreases fs.len() - i,
{
    if i < 0 || i >= fs.len() {
        None
    } else if fs[i].0 == k {
        Some(i)
    } else {
        first_key_from(fs, k, i + 1)
    }
}

/// The values of the fields with key `k`, in order.
pub open spec fn key_values(fs: Seq<(Seq<char>, Seq<char>)>, k: Seq<char>) -> Seq<Seq<char>>
    decreases fs.len(),
{
    if fs.len() == 0 {
        Seq::empty()
    } else if fs.last().0 == k {
        key_values(fs.drop_last(), k).push(fs.last().1)
    } else {
        key_values(fs.drop_last(), k)
    }
}

/// The fields of a host, in order.
pub struct HostFields {
    fields: Vec<Field>,
}

impl View for HostFields {
    type V = Seq<(Seq<char>, Seq<char>)>;

    closed spec fn view(&self) -> Seq<(Seq<char>, Seq<char>)> {
        self.fields@.map_values(|f: Field| (f.key@, f.value@))
    }
}

impl HostFields {
    /// No fields.
    pub fn new() -> (h: Self)
        ensures
            h@ == Seq::<(Seq<char>, Seq<char>)>::empty(),
    {
        let h = HostFields { fields: Vec::new() };
        assert(h@ =~= Seq::<(Seq<char>, Seq<char>)>::empty());
        h
    }

    /// Add and dedupe fields the same way that `ssh -G` does: the key is
    /// lower-cased, and a key already present keeps its value.
    pub fn add_field(&mut self, key: &str, value: &str)
        ensures
            final(self)@ == if holds_key(old(self)@, lowercase(key@)) {
                old(self)@
            } else {
                old(self)@.push((lowercase(key@), value@))
            },
    {
        let key = to_lowercase(key);
        if !self.contains_key(key.as_str()) {
            self.fields.push(Field { key, value: string_from(value) });
            assert(self@ =~= old(self)@.push((key@, value@)));
        }
    }

    /// Whether some field has key `key`, as given.
    pub fn contains_key(&self, key: &str) -> (b: bool)
        ensures
            b == holds_key(self@, key@),
    {
        self.position(key).is_some()
    }

    /// The position of the first field with key `key`, as given.
    fn position(&self, key: &str) -> (r: Option<usize>)
        ensures
            r matches Some(i) ==> first_key_from(self@, key@, 0) == Some(i as int) && i < self@.len(),
            r is None ==> first_key_from(self@, key@, 0) is None,
            r is Some <==> holds_key(self@, key@),
    {
        let mut i: usize = 0;
        while i < self.fields.len()
            invariant
                i <= self.fields.len(),
                first_key_from(self@, key@, 0) == first_key_from(self@, key@, i as int),
                forall|j: int| 0 <= j < i ==> #[trigger] self@[j].0 != key@,
            decreases self.fields.len() - i,
        {
            assert(self@[i as int] == (self.fields@[i as int].key@, self.fields@[i as int].value@));
            if str_eq(self.fields[i].key.as_str(), key) {
                assert(self@[i as int].0 == key@);
                return Some(i);
            }
            i = i + 1;
        }
        None
    }

    /// The value of the first field whose key is `key`, lower-cased.
    pub fn get_one(&self, key: &str) -> (r: Option<&String>)
        ensures
            match first_key_from(self@, lowercase(key@), 0) {
                Some(i) => r matches Some(v) && v@ == self@[i].1,
                None => r is None,
            },
    {
        let k = to_lowercase(key);
        match self.position(k.as_str()) {
            Some(i) => {
                assert(self@[i as int] == (self.fields@[i as int].key@, self.fields@[i as int].value@));
                Some(&self.fields[i].value)
            },
            None => None,
        }
    }

    /// The values of the fields whose key is `key`, lower-cased, in order.
    pub fn get_multiple(&self, key: &str) -> (r: Vec<&String>)
        ensures
            r@.map_values(|v: &String| v@) == key_values(self@, lowercase(key@)),
    {
        let k = to_lowercase(key);
        let mut r: Vec<&String> = Vec::new();
        let mut i: usize = 0;
        while i < self.fields.len()
            invariant
                i <= self.fields.len(),
                k@ == lowercase(key@),
                r@.map_values(|v: &String| v@) == key_values(self@.take(i as int), k@),
            decreases self.fields.len() - i,
        {
            assert(self@.take(i + 1).drop_last() =~= self@.take(i as int));
            assert(self@.take(i + 1).last() == (self.fields@[i as int].key@, self.fields@[i as int].value@));
            if str_eq(self.fields[i].key.as_str(), k.as_str()) {
                r.push(&self.fields[i].value);
            }
            assert(r@.map_values(|v: &String| v@) =~= key_values(self@.take(i + 1), k@));
            i = i + 1;
        }
        assert(self@.take(i as int) =~= self@);
        r
    }

    /// Whether there is no field.
    pub fn is_empty(&self) -> (b: bool)
        ensures
            b == (self@.len() == 0),
    {
        self.fields.len() == 0
    }

    /// How many fields there are.
    pub fn len(&self) -> (n: usize)
        ensures
            n == self@.len(),
    {
        self.fields.len()
    }
}

} // verus!
