//! Parameter sets: the name-to-value bindings collected for one generation
//! run.  Later insertions for the same name override earlier ones, so the
//! set behaves as a map built left to right.

use vstd::prelude::*;
use crate::strutil::str_eq;

verus! {

/// The map described by a sequence of bindings, later entries winning.
pub open spec fn map_of_entries(entries: Seq<(String, String)>) -> Map<Seq<char>, Seq<char>>
    decreases entries.len(),
{
    if entries.len() == 0 {
        Map::empty()
    } else {
        map_of_entries(entries.drop_last()).insert(entries.last().0@, entries.last().1@)
    }
}

/// Concrete name-to-value bindings for one generation run.
pub struct ParamSet {
    entries: Vec<(String, String)>,
}

impl View for ParamSet {
    type V = Map<Seq<char>, Seq<char>>;

    closed spec fn view(&self) -> Map<Seq<char>, Seq<char>> {
        map_of_entries(self.entries@)
    }
}

/// Looking a key up in `map_of_entries` ignores every entry whose name
/// differs from that key.
proof fn lemma_map_of_agree(entries: Seq<(String, String)>, i: int, key: Seq<char>)
    requires
        0 <= i <= entries.len(),
        forall|j: int| i <= j < entries.len() ==> (#[trigger] entries[j]).0@ != key,
    ensures
        map_of_entries(entries).contains_key(key) <==> map_of_entries(
            entries.take(i),
        ).contains_key(key),
        map_of_entries(entries).contains_key(key) ==> map_of_entries(entries)[key]
            == map_of_entries(entries.take(i))[key],
    decreases entries.len() - i,
{
    if i == entries.len() {
        assert(entries.take(i) =~= entries);
    } else {
        assert(entries.last().0@ != key);
        lemma_map_of_agree(entries.drop_last(), i, key);
        assert(entries.drop_last().take(i) =~= entries.take(i));
    }
}

impl ParamSet {
    /// An empty parameter set.
    pub fn new() -> (r: ParamSet)
        ensures
            r@ == Map::<Seq<char>, Seq<char>>::empty(),
    {
        ParamSet { entries: Vec::new() }
    }

    /// Binds `key` to `value`, replacing any earlier binding of `key`.
    pub fn insert(&mut self, key: String, value: String)
        ensures
            final(self)@ == old(self)@.insert(key@, value@),
    {
        let ghost before = self.entries@;
        self.entries.push((key, value));
        proof {
            assert(self.entries@.drop_last() =~= before);
        }
    }

    /// Returns the value bound to `key`, if any.
    pub fn get<'a>(&'a self, key: &str) -> (r: Option<&'a String>)
        ensures
            match r {
                Some(v) => self@.contains_key(key@) && v@ == self@[key@],
                None => !self@.contains_key(key@),
            },
    {
        let mut i: usize = self.entries.len();
        while i > 0
            invariant
                0 <= i <= self.entries.len(),
                forall|j: int|
                    i <= j < self.entries@.len() ==> (#[trigger] self.entries@[j]).0@ != key@,
            decreases i,
        {
            i = i - 1;
            if str_eq(self.entries[i].0.as_str(), key) {
                proof {
                    let e = self.entries@;
                    lemma_map_of_agree(e, i + 1, key@);
                    assert(e.take(i + 1).drop_last() =~= e.take(i as int));
                    assert(e.take(i + 1).last() == e[i as int]);
                }
                return Some(&self.entries[i].1);
            }
        }
        proof {
            lemma_map_of_agree(self.entries@, 0, key@);
            assert(self.entries@.take(0) =~= Seq::<(String, String)>::empty());
        }
        None
    }
}

} // verus!
