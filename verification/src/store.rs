//! The store backend: a string-to-string mapping with last-write-wins
//! semantics, kept as an append-only journal of bindings. The newest
//! binding for a key is the one in force, so a `set` is a single push and
//! a `get` scans from the newest entry backwards.

use vstd::prelude::*;

verus! {

/// The mapping described by a journal of bindings, newest binding last;
/// a later binding for a key shadows every earlier one.
pub open spec fn journal_map(s: Seq<(String, String)>) -> Map<Seq<char>, Seq<char>>
    decreases s.len(),
{
    if s.len() == 0 {
        Map::empty()
    } else {
        journal_map(s.drop_last()).insert(s.last().0@, s.last().1@)
    }
}

/// A key-value store holding string keys and string values; its view is
/// the mapping from key to newest value.
pub struct KeyValueStore {
    entries: Vec<(String, String)>,
}

impl View for KeyValueStore {
    type V = Map<Seq<char>, Seq<char>>;

    closed spec fn view(&self) -> Map<Seq<char>, Seq<char>> {
        journal_map(self.entries@)
    }
}

impl KeyValueStore {
    /// An empty store: no key is bound.
    pub fn new() -> (r: KeyValueStore)
        ensures
            r@ == Map::<Seq<char>, Seq<char>>::empty(),
    {
        KeyValueStore { entries: Vec::new() }
    }

    /// Bind `key` to `val`, shadowing any earlier binding of `key`.
    pub fn set(&mut self, key: String, val: String)
        ensures
            final(self)@ == old(self)@.insert(key@, val@),
    {
        let ghost before = self.entries@;
        self.entries.push((key, val));
        proof {
            assert(self.entries@.drop_last() =~= before);
        }
    }

    /// The value in force for `key`: the one of its newest binding, or
    /// nothing if `key` was never bound.
    pub fn get(&self, key: &String) -> (r: Option<String>)
        ensures
            match r {
                Some(v) => self@.contains_key(key@) && self@[key@] == v@,
                None => !self@.contains_key(key@),
            },
    {
        let n = self.entries.len();
        let mut i: usize = n;
        proof {
            assert(self.entries@.subrange(0, n as int) =~= self.entries@);
        }
        while i > 0
            invariant
                i <= n,
                n == self.entries@.len(),
                journal_map(self.entries@).contains_key(key@) == journal_map(
                    self.entries@.subrange(0, i as int),
                ).contains_key(key@),
                journal_map(self.entries@).contains_key(key@) ==> journal_map(self.entries@)[key@]
                    == journal_map(self.entries@.subrange(0, i as int))[key@],
            decreases i,
        {
            let ghost pre = self.entries@.subrange(0, i as int);
            proof {
                assert(pre.len() == i);
                assert(pre.drop_last() =~= self.entries@.subrange(0, i - 1));
                assert(pre.last() == self.entries@[i - 1]);
                assert(journal_map(pre) == journal_map(pre.drop_last()).insert(
                    pre.last().0@,
                    pre.last().1@,
                ));
            }
            if *key == self.entries[i - 1].0 {
                return Some(self.entries[i - 1].1.clone());
            }
            i = i - 1;
        }
        proof {
            assert(self.entries@.subrange(0, 0) =~= Seq::<(String, String)>::empty());
        }
        None
    }
}

/// Setting a key and then reading it yields exactly the value just
/// written, whatever was in the store before.
pub proof fn lemma_set_then_get(m: Map<Seq<char>, Seq<char>>, k: Seq<char>, v: Seq<char>)
    ensures
        m.insert(k, v).contains_key(k),
        m.insert(k, v)[k] == v,
{
}

/// A key never written is absent: the empty store does not hold it, and
/// setting any other key does not bring it into being.
pub proof fn lemma_get_unwritten(m: Map<Seq<char>, Seq<char>>, k: Seq<char>, k2: Seq<char>, v: Seq<char>)
    requires
        k2 != k,
    ensures
        !Map::<Seq<char>, Seq<char>>::empty().contains_key(k),
        !m.contains_key(k) ==> !m.insert(k2, v).contains_key(k),
{
}

/// The last write wins: after two writes to the same key, reading it
/// yields the second value.
pub proof fn lemma_last_write_wins(m: Map<Seq<char>, Seq<char>>, k: Seq<char>, v1: Seq<char>, v2: Seq<char>)
    ensures
        m.insert(k, v1).insert(k, v2).contains_key(k),
        m.insert(k, v1).insert(k, v2)[k] == v2,
{
}

} // verus!
