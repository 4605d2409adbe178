//! Header fields: names and values, each name at most once, in the order in
//! which the names first arrived.

use crate::text::str_eq;
use vstd::prelude::*;

verus! {

/// What a header collection holds: its fields in order, each a name and a value.
pub type Fields = Seq<(Seq<char>, Seq<char>)>;

/// Whether a field with this name is among `fields`.
pub open spec fn has_name(fields: Fields, name: Seq<char>) -> bool {
    exists|i: int| 0 <= i < fields.len() && (#[trigger] fields[i]).0 == name
}

/// A place at which `name` stands in `fields`.
pub open spec fn index_of(fields: Fields, name: Seq<char>) -> int {
    choose|i: int| 0 <= i < fields.len() && (#[trigger] fields[i]).0 == name
}

/// The value that `fields` gives to `name`.
pub open spec fn value_of(fields: Fields, name: Seq<char>) -> Option<Seq<char>> {
    if has_name(fields, name) {
        Some(fields[index_of(fields, name)].1)
    } else {
        None
    }
}

/// No name stands twice in `fields`.
pub open spec fn distinct_names(fields: Fields) -> bool {
    forall|i: int, j: int|
        0 <= i < j < fields.len() ==> (#[trigger] fields[i]).0 != (#[trigger] fields[j]).0
}

/// `fields` after `name` has been given `value`: a name already there keeps
/// its place and loses its old value, a new one goes to the end.
pub open spec fn put(fields: Fields, name: Seq<char>, value: Seq<char>) -> Fields {
    if has_name(fields, name) {
        fields.update(index_of(fields, name), (name, value))
    } else {
        fields.push((name, value))
    }
}

/// Where names are distinct, the field at `i` is the one its name leads to.
pub proof fn lemma_index_of(fields: Fields, i: int)
    requires
        distinct_names(fields),
        0 <= i < fields.len(),
    ensures
        has_name(fields, fields[i].0),
        index_of(fields, fields[i].0) == i,
        value_of(fields, fields[i].0) == Some(fields[i].1),
{
    let j = index_of(fields, fields[i].0);
    assert(fields[j].0 == fields[i].0);
}

/// `put` keeps names distinct.
pub proof fn lemma_put_distinct(fields: Fields, name: Seq<char>, value: Seq<char>)
    requires
        distinct_names(fields),
    ensures
        distinct_names(put(fields, name, value)),
{
    let after = put(fields, name, value);
    assert forall|i: int, j: int| 0 <= i < j < after.len() implies (#[trigger] after[i]).0 != (
    #[trigger] after[j]).0 by {
        if has_name(fields, name) {
            let k = index_of(fields, name);
            assert(after[i].0 == fields[i].0);
            assert(after[j].0 == fields[j].0);
        } else {
            if j == fields.len() {
                assert(after[i] == fields[i]);
            } else {
                assert(after[i] == fields[i]);
                assert(after[j] == fields[j]);
            }
        }
    }
}

/// After `put`, the name leads to the new value and every other name to what
/// it led to before.
pub proof fn lemma_put_value(fields: Fields, name: Seq<char>, value: Seq<char>, other: Seq<char>)
    requires
        distinct_names(fields),
    ensures
        value_of(put(fields, name, value), name) == Some(value),
        other != name ==> value_of(put(fields, name, value), other) == value_of(fields, other),
        has_name(put(fields, name, value), other) <==> other == name || has_name(fields, other),
{
    let after = put(fields, name, value);
    lemma_put_distinct(fields, name, value);
    let k = if has_name(fields, name) {
        index_of(fields, name)
    } else {
        fields.len() as int
    };
    assert(after[k] == (name, value));
    lemma_index_of(after, k);
    if other != name {
        if has_name(fields, other) {
            let m = index_of(fields, other);
            assert(after[m] == fields[m]);
            lemma_index_of(after, m);
        }
        if has_name(after, other) {
            let m = index_of(after, other);
            assert(m != k);
            assert(after[m] == fields[m]);
            lemma_index_of(fields, m);
        }
    }
}

/// A collection of header fields. A name occurs at most once; giving a name
/// a second value replaces the first.
#[derive(Debug)]
pub struct Headers {
    entries: Vec<(String, String)>,
}

impl View for Headers {
    type V = Fields;

    closed spec fn view(&self) -> Fields {
        Seq::new(self.entries@.len(), |i: int| (self.entries@[i].0@, self.entries@[i].1@))
    }
}

impl Headers {
    #[verifier::type_invariant]
    spec fn names_are_distinct(self) -> bool {
        distinct_names(self@)
    }

    /// An empty collection.
    pub fn new() -> (h: Headers)
        ensures
            h@ == Seq::<(Seq<char>, Seq<char>)>::empty(),
    {
        let h = Headers { entries: Vec::new() };
        assert(h@ =~= Seq::<(Seq<char>, Seq<char>)>::empty());
        h
    }

    /// The number of fields.
    pub fn len(&self) -> (n: usize)
        ensures
            n == self@.len(),
            distinct_names(self@),
    {
        proof {
            use_type_invariant(self);
        }
        self.entries.len()
    }

    /// The name of the field at `i`.
    pub fn name_at(&self, i: usize) -> (name: &String)
        requires
            i < self@.len(),
        ensures
            name@ == self@[i as int].0,
    {
        &self.entries[i].0
    }

    /// The value of the field at `i`.
    pub fn value_at(&self, i: usize) -> (value: &String)
        requires
            i < self@.len(),
        ensures
            value@ == self@[i as int].1,
    {
        &self.entries[i].1
    }

    fn find(&self, name: &str) -> (r: Option<usize>)
        ensures
            distinct_names(self@),
            match r {
                Some(i) => i < self@.len() && self@[i as int].0 == name@ && has_name(self@, name@)
                    && index_of(self@, name@) == i,
                None => !has_name(self@, name@),
            },
    {
        proof {
            use_type_invariant(self);
        }
        let mut i: usize = 0;
        while i < self.entries.len()
            invariant
                i <= self@.len(),
                self@.len() == self.entries@.len(),
                distinct_names(self@),
                forall|j: int| 0 <= j < i ==> (#[trigger] self@[j]).0 != name@,
            decreases self@.len() - i,
        {
            if str_eq(self.entries[i].0.as_str(), name) {
                proof {
                    lemma_index_of(self@, i as int);
                }
                return Some(i);
            }
            i = i + 1;
        }
        None
    }

    /// Whether a field with this name is there.
    pub fn contains_key(&self, name: &str) -> (r: bool)
        ensures
            r == has_name(self@, name@),
    {
        self.find(name).is_some()
    }

    /// The value of the field with this name.
    pub fn get(&self, name: &str) -> (r: Option<&String>)
        ensures
            match r {
                Some(value) => value_of(self@, name@) == Some(value@),
                None => value_of(self@, name@) is None,
            },
    {
        match self.find(name) {
            Some(i) => Some(&self.entries[i].1),
            None => None,
        }
    }

    /// Gives `name` the value `value`, and returns the value it had.
    pub fn insert(&mut self, name: String, value: String) -> (previous: Option<String>)
        ensures
            final(self)@ == put(old(self)@, name@, value@),
            match previous {
                Some(was) => value_of(old(self)@, name@) == Some(was@),
                None => value_of(old(self)@, name@) is None,
            },
    {
        let ghost before = self@;
        proof {
            use_type_invariant(&*self);
            lemma_put_distinct(before, name@, value@);
        }
        let found = self.find(name.as_str());
        let mut entries: Vec<(String, String)> = Vec::new();
        core::mem::swap(&mut self.entries, &mut entries);
        let ghost fields = Seq::new(
            entries@.len(),
            |k: int| (entries@[k].0@, entries@[k].1@),
        );
        assert(fields =~= before);
        let previous = match found {
            Some(i) => {
                let was = entries[i].1.clone();
                entries.set(i, (name, value));
                Some(was)
            },
            None => {
                entries.push((name, value));
                None
            },
        };
        assert(Seq::new(entries@.len(), |k: int| (entries@[k].0@, entries@[k].1@)) =~= put(
            before,
            name@,
            value@,
        ));
        self.entries = entries;
        previous
    }
}

} // verus!
