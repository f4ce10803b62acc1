//! A map from option names to values that keeps the order of insertion.
use vstd::prelude::*;
use crate::text::str_eq;

verus! {

pub open spec fn pair_views(v: Seq<(String, String)>) -> Seq<(Seq<char>, Seq<char>)> {
    v.map_values(|p: (String, String)| (p.0@, p.1@))
}

/// No name occurs twice.
pub open spec fn keys_distinct(s: Seq<(Seq<char>, Seq<char>)>) -> bool {
    forall|i: int, j: int| 0 <= i < j < s.len() ==> s[i].0 != s[j].0
}

/// Index of the first entry named `k` at or after `i`, or the length.
pub open spec fn key_index_from(s: Seq<(Seq<char>, Seq<char>)>, k: Seq<char>, i: int) -> int
    decreases s.len() - i,
{
    if i < 0 || i >= s.len() {
        s.len() as int
    } else if s[i].0 == k {
        i
    } else {
        key_index_from(s, k, i + 1)
    }
}

/// Index of the entry named `k`, or the length when there is none.
pub open spec fn key_index(s: Seq<(Seq<char>, Seq<char>)>, k: Seq<char>) -> int {
    key_index_from(s, k, 0)
}

pub proof fn lemma_key_index_from(s: Seq<(Seq<char>, Seq<char>)>, k: Seq<char>, i: int)
    requires
        0 <= i <= s.len(),
    ensures
        i <= key_index_from(s, k, i) <= s.len(),
        key_index_from(s, k, i) < s.len() ==> s[key_index_from(s, k, i)].0 == k,
        forall|j: int| i <= j < key_index_from(s, k, i) ==> s[j].0 != k,
    decreases s.len() - i,
{
    if i < s.len() && s[i].0 != k {
        lemma_key_index_from(s, k, i + 1);
    }
}

pub proof fn lemma_key_index(s: Seq<(Seq<char>, Seq<char>)>, k: Seq<char>)
    ensures
        0 <= key_index(s, k) <= s.len(),
        key_index(s, k) < s.len() ==> s[key_index(s, k)].0 == k,
        forall|j: int| 0 <= j < key_index(s, k) ==> s[j].0 != k,
{
    lemma_key_index_from(s, k, 0);
}

/// Option names with their values, in the order in which they were first set.
#[derive(Debug, Clone)]
pub struct OptionMap {
    entries: Vec<(String, String)>,
}

impl View for OptionMap {
    type V = Seq<(Seq<char>, Seq<char>)>;

    closed spec fn view(&self) -> Seq<(Seq<char>, Seq<char>)> {
        pair_views(self.entries@)
    }
}

impl OptionMap {
    pub open spec fn wf(&self) -> bool {
        keys_distinct(self@)
    }

    pub fn new() -> (r: OptionMap)
        ensures
            r@ == Seq::<(Seq<char>, Seq<char>)>::empty(),
            r.wf(),
    {
        let r = OptionMap { entries: Vec::new() };
        assert(r@ =~= Seq::<(Seq<char>, Seq<char>)>::empty());
        r
    }

    pub fn len(&self) -> (r: usize)
        ensures
            r == self@.len(),
    {
        self.entries.len()
    }

    pub fn is_empty(&self) -> (r: bool)
        ensures
            r == (self@.len() == 0),
    {
        self.entries.len() == 0
    }

    /// The name and value of entry `i`.
    pub fn entry(&self, i: usize) -> (r: (&String, &String))
        requires
            i < self@.len(),
        ensures
            r.0@ == self@[i as int].0,
            r.1@ == self@[i as int].1,
    {
        let e = &self.entries[i];
        (&e.0, &e.1)
    }

    /// Position of the entry named `name`, or the length.
    pub fn position(&self, name: &str) -> (r: usize)
        ensures
            r == key_index(self@, name@),
    {
        let mut i: usize = 0;
        while i < self.entries.len()
            invariant
                i <= self@.len(),
                self@.len() == self.entries@.len(),
                key_index(self@, name@) == key_index_from(self@, name@, i as int),
            decreases self@.len() - i,
        {
            if str_eq(self.entries[i].0.as_str(), name) {
                assert(self@[i as int].0 == self.entries@[i as int].0@);
                return i;
            }
            assert(self@[i as int].0 == self.entries@[i as int].0@);
            i = i + 1;
        }
        i
    }

    /// The value of the option `name`.
    pub fn get(&self, name: &str) -> (r: Option<&String>)
        ensures
            match r {
                Some(v) => key_index(self@, name@) < self@.len() && v@ == self@[key_index(
                    self@,
                    name@,
                )].1,
                None => key_index(self@, name@) == self@.len(),
            },
    {
        proof {
            lemma_key_index(self@, name@);
        }
        let i = self.position(name);
        if i < self.entries.len() {
            Some(&self.entries[i].1)
        } else {
            None
        }
    }

    /// Sets `name` to `value`: in place when the name is there, else at the end.
    pub fn insert(&mut self, name: String, value: String)
        requires
            old(self).wf(),
        ensures
            final(self).wf(),
            final(self)@ == (if key_index(old(self)@, name@) < old(self)@.len() {
                old(self)@.update(key_index(old(self)@, name@), (name@, value@))
            } else {
                old(self)@.push((name@, value@))
            }),
    {
        proof {
            lemma_key_index(self@, name@);
        }
        let i = self.position(name.as_str());
        if i < self.entries.len() {
            self.entries.set(i, (name, value));
            assert(self@ =~= old(self)@.update(i as int, (name@, value@)));
        } else {
            self.entries.push((name, value));
            assert(self@ =~= old(self)@.push((name@, value@)));
        }
    }

    /// A copy of the map.
    pub fn duplicate(&self) -> (r: OptionMap)
        ensures
            r@ == self@,
    {
        let mut entries: Vec<(String, String)> = Vec::new();
        let mut i: usize = 0;
        while i < self.entries.len()
            invariant
                i <= self.entries@.len(),
                entries@ == self.entries@.subrange(0, i as int),
            decreases self.entries@.len() - i,
        {
            let e = &self.entries[i];
            entries.push((e.0.clone(), e.1.clone()));
            assert(entries@ =~= self.entries@.subrange(0, i + 1));
            i = i + 1;
        }
        assert(entries@ =~= self.entries@);
        OptionMap { entries }
    }

    /// Adds an entry for a name that is known to be absent.
    pub(crate) fn push_new(&mut self, name: String, value: String)
        ensures
            final(self)@ == old(self)@.push((name@, value@)),
    {
        self.entries.push((name, value));
        assert(self@ =~= old(self)@.push((name@, value@)));
    }
}

} // verus!
