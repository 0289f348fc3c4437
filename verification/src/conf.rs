//! String-to-string configuration maps with last-writer-wins semantics.
//!
//! Spark configuration accumulates from several sources in a fixed order and
//! later sources overwrite earlier keys of the same name.  The map is kept as
//! an append-only list of entries whose mathematical view is the map built by
//! inserting the entries in order, so appending an entry *is* overwriting.

use vstd::prelude::*;

verus! {

/// The map denoted by a list of entries: entries are inserted in order, so a
/// later entry for the same key wins.
pub open spec fn map_of(entries: Seq<(String, String)>) -> Map<Seq<char>, Seq<char>>
    decreases entries.len(),
{
    if entries.len() == 0 {
        Map::empty()
    } else {
        map_of(entries.drop_last()).insert(entries.last().0@, entries.last().1@)
    }
}

/// A string-keyed, string-valued configuration map.  Later insertions
/// overwrite earlier ones with the same key.
pub struct ConfMap {
    pub entries: Vec<(String, String)>,
}

impl View for ConfMap {
    type V = Map<Seq<char>, Seq<char>>;

    open spec fn view(&self) -> Map<Seq<char>, Seq<char>> {
        map_of(self.entries@)
    }
}

proof fn lemma_map_of_no_match(entries: Seq<(String, String)>, key: Seq<char>)
    requires
        forall|i: int| 0 <= i < entries.len() ==> (#[trigger] entries[i]).0@ != key,
    ensures
        !map_of(entries).contains_key(key),
    decreases entries.len(),
{
    if entries.len() > 0 {
        assert(entries.last() == entries[entries.len() - 1]);
        assert forall|i: int| 0 <= i < entries.drop_last().len() implies (
        #[trigger] entries.drop_last()[i]).0@ != key by {
            assert(entries.drop_last()[i] == entries[i]);
        }
        lemma_map_of_no_match(entries.drop_last(), key);
    }
}

proof fn lemma_map_of_last_match(entries: Seq<(String, String)>, j: int)
    requires
        0 <= j < entries.len(),
        forall|i: int| j < i < entries.len() ==> (#[trigger] entries[i]).0@ != entries[j].0@,
    ensures
        map_of(entries).contains_key(entries[j].0@),
        map_of(entries)[entries[j].0@] == entries[j].1@,
    decreases entries.len(),
{
    if j == entries.len() - 1 {
        assert(entries.last() == entries[j]);
    } else {
        assert(entries.last() == entries[entries.len() - 1]);
        assert forall|i: int| j < i < entries.drop_last().len() implies (
        #[trigger] entries.drop_last()[i]).0@ != entries.drop_last()[j].0@ by {
            assert(entries.drop_last()[i] == entries[i]);
        }
        assert(entries.drop_last()[j] == entries[j]);
        lemma_map_of_last_match(entries.drop_last(), j);
    }
}

/// Concatenating entry lists denotes the union of their maps, with the later
/// list winning on shared keys.
pub proof fn lemma_map_of_concat(a: Seq<(String, String)>, b: Seq<(String, String)>)
    ensures
        map_of(a + b) == map_of(a).union_prefer_right(map_of(b)),
    decreases b.len(),
{
    if b.len() == 0 {
        assert(a + b =~= a);
        assert(map_of(a).union_prefer_right(map_of(b)) =~= map_of(a));
    } else {
        lemma_map_of_concat(a, b.drop_last());
        assert((a + b).drop_last() =~= a + b.drop_last());
        assert((a + b).last() == b.last());
        assert(map_of(a).union_prefer_right(map_of(b)) =~= map_of(a).union_prefer_right(
            map_of(b.drop_last()),
        ).insert(b.last().0@, b.last().1@));
    }
}

impl ConfMap {
    /// The empty configuration map.
    pub fn new() -> (r: ConfMap)
        ensures
            r@ == Map::<Seq<char>, Seq<char>>::empty(),
    {
        ConfMap { entries: Vec::new() }
    }

    /// Insert a key/value pair, overwriting any earlier value for the key.
    pub fn insert(&mut self, key: String, value: String)
        ensures
            final(self)@ == old(self)@.insert(key@, value@),
    {
        let ghost before = self.entries@;
        self.entries.push((key, value));
        proof {
            assert(self.entries@.drop_last() =~= before);
        }
    }

    /// Look the key up; the most recently inserted value wins.
    pub fn get(&self, key: &String) -> (r: Option<&String>)
        ensures
            match r {
                Some(v) => self@.contains_key(key@) && v@ == self@[key@],
                None => !self@.contains_key(key@),
            },
    {
        let mut j: usize = self.entries.len();
        while j > 0
            invariant
                j <= self.entries.len(),
                forall|i: int| j <= i < self.entries.len() ==> (#[trigger] self.entries@[i]).0@
                    != key@,
            decreases j,
        {
            j = j - 1;
            if self.entries[j].0 == *key {
                proof {
                    lemma_map_of_last_match(self.entries@, j as int);
                }
                return Some(&self.entries[j].1);
            }
        }
        proof {
            lemma_map_of_no_match(self.entries@, key@);
        }
        None
    }

    /// Merge another map into this one; on shared keys the other map wins.
    pub fn extend(&mut self, other: &ConfMap)
        ensures
            final(self)@ == old(self)@.union_prefer_right(other@),
    {
        let ghost base = self.entries@;
        let mut i: usize = 0;
        while i < other.entries.len()
            invariant
                i <= other.entries.len(),
                map_of(self.entries@) == map_of(base).union_prefer_right(
                    map_of(other.entries@.subrange(0, i as int)),
                ),
            decreases other.entries.len() - i,
        {
            let ghost entries_before = self.entries@;
            let ghost sub_before = other.entries@.subrange(0, i as int);
            let k = other.entries[i].0.clone();
            let v = other.entries[i].1.clone();
            self.entries.push((k, v));
            proof {
                assert(self.entries@.drop_last() =~= entries_before);
                let sub_after = other.entries@.subrange(0, i + 1 as int);
                assert(sub_after.drop_last() =~= sub_before);
                assert(sub_after.last() == other.entries@[i as int]);
                assert(map_of(self.entries@) =~= map_of(base).union_prefer_right(
                    map_of(sub_after),
                ));
            }
            i = i + 1;
        }
        proof {
            assert(other.entries@.subrange(0, other.entries@.len() as int) =~= other.entries@);
        }
    }

    /// The number of stored entries (duplicates from overwrites included).
    pub fn entry_count(&self) -> (r: usize)
        ensures
            r == self.entries@.len(),
    {
        self.entries.len()
    }
}

impl Clone for ConfMap {
    /// Cloning keeps the denoted map.
    fn clone(&self) -> (r: ConfMap)
        ensures
            r@ == self@,
    {
        let mut entries: Vec<(String, String)> = Vec::new();
        let mut i: usize = 0;
        while i < self.entries.len()
            invariant
                i <= self.entries.len(),
                map_of(entries@) == map_of(self.entries@.subrange(0, i as int)),
            decreases self.entries.len() - i,
        {
            let ghost before = entries@;
            let ghost sub_before = self.entries@.subrange(0, i as int);
            entries.push((self.entries[i].0.clone(), self.entries[i].1.clone()));
            proof {
                assert(entries@.drop_last() =~= before);
                let sub_after = self.entries@.subrange(0, i + 1 as int);
                assert(sub_after.drop_last() =~= sub_before);
                assert(sub_after.last() == self.entries@[i as int]);
            }
            i = i + 1;
        }
        proof {
            assert(self.entries@.subrange(0, self.entries@.len() as int) =~= self.entries@);
        }
        ConfMap { entries }
    }
}

} // verus!
