//! The in-memory key/value mapping.
//!
//! Entries live in a vector with pairwise-distinct keys; the abstract value
//! is the finite map from key characters to definition characters.

use vstd::prelude::*;

use crate::commands::tokens::str_eq;

verus! {

/// In-memory mapping from words to definitions, at most one entry per key.
#[derive(PartialEq, Debug, Clone)]
pub struct Dictionary {
    entries: Vec<(String, String)>,
}

/// The map an entry sequence denotes; later entries win, though well-formed
/// dictionaries never hold a key twice.
pub closed spec fn map_of(s: Seq<(String, String)>) -> Map<Seq<char>, Seq<char>>
    decreases s.len(),
{
    if s.len() == 0 {
        Map::empty()
    } else {
        map_of(s.drop_last()).insert(s.last().0@, s.last().1@)
    }
}

impl View for Dictionary {
    type V = Map<Seq<char>, Seq<char>>;

    closed spec fn view(&self) -> Map<Seq<char>, Seq<char>> {
        map_of(self.entries@)
    }
}

/// Pairwise-distinct keys.
spec fn unique_keys(s: Seq<(String, String)>) -> bool {
    forall|i: int, j: int| 0 <= i < j < s.len() ==> s[i].0@ != s[j].0@
}

/// A key is in the map exactly when some entry carries it.
proof fn lemma_map_of_contains(s: Seq<(String, String)>, k: Seq<char>)
    ensures
        map_of(s).contains_key(k) <==> exists|i: int| 0 <= i < s.len() && s[i].0@ == k,
    decreases s.len(),
{
    if s.len() > 0 {
        lemma_map_of_contains(s.drop_last(), k);
        if map_of(s).contains_key(k) {
            if s.last().0@ == k {
                assert(s[s.len() - 1].0@ == k);
            } else {
                let i = choose|i: int| 0 <= i < s.drop_last().len() && s.drop_last()[i].0@ == k;
                assert(s[i].0@ == k);
            }
        }
        if exists|i: int| 0 <= i < s.len() && s[i].0@ == k {
            let i = choose|i: int| 0 <= i < s.len() && s[i].0@ == k;
            if i < s.len() - 1 {
                assert(s.drop_last()[i].0@ == k);
            }
        }
    }
}

/// With distinct keys, the map sends each entry's key to its definition.
proof fn lemma_map_of_value(s: Seq<(String, String)>, i: int)
    requires
        unique_keys(s),
        0 <= i < s.len(),
    ensures
        map_of(s).contains_key(s[i].0@),
        map_of(s)[s[i].0@] == s[i].1@,
    decreases s.len(),
{
    lemma_map_of_contains(s, s[i].0@);
    if i < s.len() - 1 {
        assert(s.drop_last()[i] == s[i]);
        lemma_map_of_value(s.drop_last(), i);
        assert(s[i].0@ != s.last().0@);
    }
}

/// With distinct keys, the map has exactly one binding per entry.
proof fn lemma_map_of_len(s: Seq<(String, String)>)
    requires
        unique_keys(s),
    ensures
        map_of(s).dom().finite(),
        map_of(s).dom().len() == s.len(),
    decreases s.len(),
{
    if s.len() > 0 {
        lemma_map_of_len(s.drop_last());
        lemma_map_of_contains(s.drop_last(), s.last().0@);
        assert(forall|i: int| 0 <= i < s.drop_last().len() ==> s.drop_last()[i] == s[i]);
        assert(!map_of(s.drop_last()).contains_key(s.last().0@));
    }
}

impl Dictionary {
    /// Distinct keys: the representation carries each key at most once.
    pub closed spec fn wf(&self) -> bool {
        unique_keys(self.entries@)
    }

    /// A fresh, empty dictionary.
    pub fn new() -> (r: Self)
        ensures
            r.wf(),
            r@ == Map::<Seq<char>, Seq<char>>::empty(),
    {
        Self { entries: Vec::new() }
    }

    /// Unconditional upsert: bind `word` to `definition`, replacing any
    /// earlier binding.
    pub fn add_entry(&mut self, word: String, definition: String)
        requires
            old(self).wf(),
        ensures
            final(self).wf(),
            final(self)@ == old(self)@.insert(word@, definition@),
    {
        self.remove_entry(word.as_str());
        let ghost mid = self.entries@;
        proof {
            lemma_map_of_contains(mid, word@);
        }
        self.entries.push((word, definition));
        proof {
            assert(self.entries@.drop_last() =~= mid);
            assert(map_of(self.entries@) =~= old(self)@.insert(
                self.entries@.last().0@,
                self.entries@.last().1@,
            ));
        }
    }

    /// Drop the binding of `word`; a no-op when the key is absent.
    pub fn remove_entry(&mut self, word: &str)
        requires
            old(self).wf(),
        ensures
            final(self).wf(),
            final(self)@ == old(self)@.remove(word@),
            !final(self)@.contains_key(word@),
    {
        let ghost s = self.entries@;
        let mut kept: Vec<(String, String)> = Vec::new();
        let n = self.entries.len();
        let mut i: usize = 0;
        proof {
            assert(s.take(0) =~= Seq::<(String, String)>::empty());
            assert(map_of(kept@) =~= map_of(s.take(0)).remove(word@));
        }
        while i < n
            invariant
                self.entries@ == s,
                unique_keys(s),
                n == s.len(),
                i <= n,
                map_of(kept@) == map_of(s.take(i as int)).remove(word@),
                unique_keys(kept@),
                forall|j: int| 0 <= j < kept@.len() ==> kept@[j].0@ != word@,
                forall|j: int|
                    #![trigger kept@[j]]
                    0 <= j < kept@.len() ==> exists|l: int|
                        0 <= l < i && kept@[j].0@ == #[trigger] s[l].0@,
            decreases n - i,
        {
            let ghost pre = kept@;
            proof {
                assert(s.take(i + 1).drop_last() =~= s.take(i as int));
                assert(s.take(i + 1).last() == s[i as int]);
            }
            if !str_eq(self.entries[i].0.as_str(), word) {
                let k = self.entries[i].0.clone();
                let v = self.entries[i].1.clone();
                kept.push((k, v));
                proof {
                    assert(kept@.drop_last() =~= pre);
                    assert(kept@.last().0@ == s[i as int].0@ && kept@.last().1@ == s[i as int].1@);
                    assert(map_of(kept@) == map_of(pre).insert(s[i as int].0@, s[i as int].1@));
                    assert(map_of(pre).insert(s[i as int].0@, s[i as int].1@) =~= map_of(
                        s.take(i + 1),
                    ).remove(word@));
                    assert forall|j: int| 0 <= j < pre.len() implies pre[j].0@
                        != s[i as int].0@ by {
                        let l = choose|l: int| 0 <= l < i && pre[j].0@ == s[l].0@;
                        assert(s[l].0@ != s[i as int].0@);
                    }
                }
            } else {
                proof {
                    assert(map_of(s.take(i + 1)).remove(word@) =~= map_of(s.take(i as int)).remove(
                        word@,
                    ));
                }
            }
            i = i + 1;
        }
        proof {
            assert(s.take(n as int) =~= s);
            lemma_map_of_contains(kept@, word@);
        }
        self.entries = kept;
    }

    /// Look `word` up.
    pub fn get_definition(&self, word: &str) -> (r: Option<&String>)
        requires
            self.wf(),
        ensures
            match r {
                Some(v) => self@.contains_key(word@) && v@ == self@[word@],
                None => !self@.contains_key(word@),
            },
    {
        let n = self.entries.len();
        let mut i: usize = 0;
        while i < n
            invariant
                self.wf(),
                n == self.entries@.len(),
                i <= n,
                forall|j: int| 0 <= j < i ==> self.entries@[j].0@ != word@,
            decreases n - i,
        {
            if str_eq(self.entries[i].0.as_str(), word) {
                proof {
                    lemma_map_of_value(self.entries@, i as int);
                }
                return Some(&self.entries[i].1);
            }
            i = i + 1;
        }
        proof {
            lemma_map_of_contains(self.entries@, word@);
        }
        None
    }

    /// The number of bindings.
    pub fn len(&self) -> (r: usize)
        requires
            self.wf(),
        ensures
            r == self@.dom().len(),
    {
        proof {
            lemma_map_of_len(self.entries@);
        }
        self.entries.len()
    }
}

} // verus!
