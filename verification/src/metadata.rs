//! A small string-to-string map that keeps its entries in insertion order.
//!
//! Log lines carry metadata such as `thread`, `logger` or `stream`. The map is
//! modelled as a `Map<Seq<char>, Seq<char>>`; each key occurs once.
use vstd::prelude::*;
use crate::text::own;

verus! {

/// Key/value metadata of a log line; each key occurs at most once, and the
/// entries keep the order in which their keys were first inserted.
#[derive(Debug, Clone)]
pub struct Metadata {
    entries: Vec<(String, String)>,
}

/// The map that a list of distinct-key entries denotes.
pub open spec fn map_of(es: Seq<(String, String)>) -> Map<Seq<char>, Seq<char>>
    decreases es.len(),
{
    if es.len() == 0 {
        Map::empty()
    } else {
        map_of(es.drop_last()).insert(es.last().0@, es.last().1@)
    }
}

pub open spec fn keys_distinct(es: Seq<(String, String)>) -> bool {
    forall|i: int, j: int| 0 <= i < j < es.len() ==> es[i].0@ != es[j].0@
}

pub proof fn lemma_map_of(es: Seq<(String, String)>)
    requires
        keys_distinct(es),
    ensures
        forall|k: Seq<char>| #[trigger] map_of(es).contains_key(k) <==> exists|i: int| 0 <= i < es.len() && es[i].0@ == k,
        forall|i: int| 0 <= i < es.len() ==> #[trigger] map_of(es)[es[i].0@] == es[i].1@,
        map_of(es).dom().finite(),
        map_of(es).len() == es.len(),
    decreases es.len(),
{
    if es.len() > 0 {
        let init = es.drop_last();
        lemma_map_of(init);
        let last = es.last();
        assert forall|k: Seq<char>| #[trigger] map_of(es).contains_key(k) <==> exists|i: int| 0 <= i < es.len() && es[i].0@ == k by {
            if map_of(es).contains_key(k) {
                if k == last.0@ {
                    assert(es[es.len() - 1].0@ == k);
                } else {
                    assert(map_of(init).contains_key(k));
                    let i = choose|i: int| 0 <= i < init.len() && init[i].0@ == k;
                    assert(es[i].0@ == k);
                }
            }
            if exists|i: int| 0 <= i < es.len() && es[i].0@ == k {
                let i = choose|i: int| 0 <= i < es.len() && es[i].0@ == k;
                if i < es.len() - 1 {
                    assert(init[i].0@ == k);
                }
            }
        }
        assert forall|i: int| 0 <= i < es.len() implies #[trigger] map_of(es)[es[i].0@] == es[i].1@ by {
            if i < es.len() - 1 {
                assert(init[i] == es[i]);
                assert(es[i].0@ != last.0@);
            }
        }
        assert(!map_of(init).contains_key(last.0@)) by {
            if map_of(init).contains_key(last.0@) {
                let i = choose|i: int| 0 <= i < init.len() && init[i].0@ == last.0@;
                assert(es[i].0@ == es[es.len() - 1].0@);
            }
        }
    }
}

pub proof fn lemma_map_of_update(es: Seq<(String, String)>, i: int, e: (String, String))
    requires
        keys_distinct(es),
        0 <= i < es.len(),
        e.0@ == es[i].0@,
    ensures
        map_of(es.update(i, e)) =~= map_of(es).insert(e.0@, e.1@),
        keys_distinct(es.update(i, e)),
    decreases es.len(),
{
    let es2 = es.update(i, e);
    if i == es.len() - 1 {
        assert(es2.drop_last() =~= es.drop_last());
        lemma_map_of(es.drop_last());
        assert(!map_of(es.drop_last()).contains_key(e.0@)) by {
            if map_of(es.drop_last()).contains_key(e.0@) {
                let j = choose|j: int| 0 <= j < es.drop_last().len() && es.drop_last()[j].0@ == e.0@;
                assert(es[j].0@ == es[i].0@);
            }
        }
    } else {
        lemma_map_of_update(es.drop_last(), i, e);
        assert(es2.drop_last() =~= es.drop_last().update(i, e));
        assert(es.last().0@ != e.0@) by {
            assert(es[es.len() - 1].0@ != es[i].0@);
        }
    }
}

impl View for Metadata {
    type V = Map<Seq<char>, Seq<char>>;

    closed spec fn view(&self) -> Map<Seq<char>, Seq<char>> {
        map_of(self.entries@)
    }
}

impl Metadata {
    pub closed spec fn wf(&self) -> bool {
        keys_distinct(self.entries@)
    }

    /// The entries in insertion order.
    pub closed spec fn entry_seq(&self) -> Seq<(String, String)> {
        self.entries@
    }

    /// An empty map.
    pub fn new() -> (m: Metadata)
        ensures
            m@ == Map::<Seq<char>, Seq<char>>::empty(),
            m.wf(),
    {
        Metadata { entries: Vec::new() }
    }

    fn position(&self, key: &String) -> (r: Option<usize>)
        requires
            self.wf(),
        ensures
            match r {
                Some(i) => i < self.entries@.len() && self.entries@[i as int].0@ == key@,
                None => forall|i: int| 0 <= i < self.entries@.len() ==> self.entries@[i].0@ != key@,
            },
    {
        let mut i: usize = 0;
        while i < self.entries.len()
            invariant
                i <= self.entries@.len(),
                forall|j: int| 0 <= j < i ==> self.entries@[j].0@ != key@,
            decreases self.entries.len() - i,
        {
            if self.entries[i].0 == *key {
                return Some(i);
            }
            i = i + 1;
        }
        None
    }

    /// Sets `key` to `value`, replacing any earlier value of `key`.
    pub fn insert(&mut self, key: String, value: String)
        requires
            old(self).wf(),
        ensures
            final(self).wf(),
            final(self)@ == old(self)@.insert(key@, value@),
    {
        match self.position(&key) {
            Some(i) => {
                proof {
                    lemma_map_of_update(self.entries@, i as int, (key, value));
                }
                self.entries.set(i, (key, value));
            },
            None => {
                let ghost es = self.entries@;
                self.entries.push((key, value));
                assert(self.entries@.drop_last() =~= es);
            },
        }
    }

    /// Sets the key given as a string slice.
    pub fn insert_str(&mut self, key: &str, value: String)
        requires
            old(self).wf(),
        ensures
            final(self).wf(),
            final(self)@ == old(self)@.insert(key@, value@),
    {
        self.insert(own(key), value);
    }

    /// The value of `key`, if it is present.
    pub fn get(&self, key: &str) -> (r: Option<&String>)
        requires
            self.wf(),
        ensures
            match r {
                Some(v) => self@.contains_key(key@) && self@[key@] == v@,
                None => !self@.contains_key(key@),
            },
    {
        let k = own(key);
        proof {
            lemma_map_of(self.entries@);
        }
        match self.position(&k) {
            Some(i) => Some(&self.entries[i].1),
            None => None,
        }
    }

    /// Whether `key` is present.
    pub fn contains_key(&self, key: &str) -> (b: bool)
        requires
            self.wf(),
        ensures
            b == self@.contains_key(key@),
    {
        self.get(key).is_some()
    }

    /// Number of keys.
    pub fn len(&self) -> (n: usize)
        requires
            self.wf(),
        ensures
            n == self@.len(),
    {
        proof {
            lemma_map_of(self.entries@);
        }
        self.entries.len()
    }

    /// Whether there are no keys.
    pub fn is_empty(&self) -> (b: bool)
        requires
            self.wf(),
        ensures
            b == (self@.len() == 0),
    {
        self.len() == 0
    }

    /// A copy with the same entries.
    pub fn copy(&self) -> (r: Metadata)
        requires
            self.wf(),
        ensures
            r.wf(),
            r@ == self@,
            r.entry_seq() =~= self.entry_seq(),
    {
        let mut es: Vec<(String, String)> = Vec::new();
        let mut i: usize = 0;
        while i < self.entries.len()
            invariant
                i <= self.entries@.len(),
                es@ =~= self.entries@.take(i as int),
            decreases self.entries.len() - i,
        {
            let k = self.entries[i].0.clone();
            let v = self.entries[i].1.clone();
            es.push((k, v));
            assert(es@ =~= self.entries@.take(i as int + 1));
            i = i + 1;
        }
        assert(self.entries@.take(self.entries@.len() as int) =~= self.entries@);
        Metadata { entries: es }
    }

    /// The key/value pairs in the order in which their keys were first inserted.
    pub fn pairs(&self) -> (r: &Vec<(String, String)>)
        ensures
            r@ == self.entry_seq(),
    {
        &self.entries
    }
}

/// A key read after it was written gives the value written; every other key
/// keeps what it had.
pub proof fn lemma_read_after_write(m: Map<Seq<char>, Seq<char>>, key: Seq<char>, value: Seq<char>, other: Seq<char>)
    ensures
        m.insert(key, value).contains_key(key),
        m.insert(key, value)[key] == value,
        other != key ==> m.insert(key, value).contains_key(other) == m.contains_key(other),
        other != key && m.contains_key(other) ==> m.insert(key, value)[other] == m[other],
{
}

} // verus!
