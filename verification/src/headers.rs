//! An insertion-ordered header table: string keys mapped to string
//! values, keys unique, last write wins. Insertion order is kept so that
//! serialization of a response is deterministic.

use vstd::prelude::*;

verus! {

use vstd::string::StringExecFns;

/// One header table entry as the specification sees it: key and value
/// character sequences.
pub type SpecPair = (Seq<char>, Seq<char>);

/// Whether some entry of `pairs` has key `k`.
pub open spec fn spec_has_key(pairs: Seq<SpecPair>, k: Seq<char>) -> bool {
    exists|i: int| 0 <= i < pairs.len() && pairs[i].0 == k
}

/// The index of the entry with key `k` (unique when the keys are unique).
pub open spec fn spec_key_index(pairs: Seq<SpecPair>, k: Seq<char>) -> int {
    choose|i: int| 0 <= i < pairs.len() && pairs[i].0 == k
}

/// The value stored under key `k`, if any.
pub open spec fn spec_lookup(pairs: Seq<SpecPair>, k: Seq<char>) -> Option<Seq<char>> {
    if spec_has_key(pairs, k) {
        Some(pairs[spec_key_index(pairs, k)].1)
    } else {
        None
    }
}

/// Insertion with last-write-wins semantics: an existing entry with the
/// same key is overwritten in place, otherwise the new entry is appended.
pub open spec fn spec_insert(pairs: Seq<SpecPair>, k: Seq<char>, v: Seq<char>) -> Seq<SpecPair> {
    if spec_has_key(pairs, k) {
        pairs.update(spec_key_index(pairs, k), (k, v))
    } else {
        pairs.push((k, v))
    }
}

/// A header mapping: keys unique, order of insertion kept.
#[derive(Debug, PartialEq, Eq, Clone)]
pub struct Headers {
    pairs: Vec<(String, String)>,
}

impl View for Headers {
    type V = Seq<SpecPair>;

    closed spec fn view(&self) -> Seq<SpecPair> {
        Seq::new(self.pairs@.len(), |i: int| (self.pairs@[i].0@, self.pairs@[i].1@))
    }
}

impl Headers {
    /// Key uniqueness: no two entries share a key.
    pub open spec fn wf(&self) -> bool {
        forall|i: int, j: int|
            0 <= i < j < self@.len() ==> self@[i].0 != self@[j].0
    }

    /// An empty table.
    pub fn new() -> (h: Headers)
        ensures
            h@ =~= Seq::<SpecPair>::empty(),
            h.wf(),
    {
        Headers { pairs: Vec::new() }
    }

    /// The number of entries.
    pub fn len(&self) -> (n: usize)
        ensures
            n == self@.len(),
    {
        self.pairs.len()
    }

    /// The key of the entry at position `i`.
    pub fn key_at(&self, i: usize) -> (k: &String)
        requires
            i < self@.len(),
        ensures
            k@ == self@[i as int].0,
    {
        &self.pairs[i].0
    }

    /// The value of the entry at position `i`.
    pub fn value_at(&self, i: usize) -> (v: &String)
        requires
            i < self@.len(),
        ensures
            v@ == self@[i as int].1,
    {
        &self.pairs[i].1
    }

    /// The value stored under `k`, if any.
    pub fn get(&self, k: &str) -> (r: Option<&String>)
        requires
            self.wf(),
        ensures
            match r {
                Some(v) => spec_lookup(self@, k@) == Some(v@),
                None => spec_lookup(self@, k@) is None,
            },
    {
        let n = self.pairs.len();
        let mut i: usize = 0;
        while i < n
            invariant
                n == self@.len(),
                i <= n,
                self.wf(),
                forall|j: int| 0 <= j < i ==> self@[j].0 != k@,
            decreases n - i,
        {
            if crate::text::str_eq(self.pairs[i].0.as_str(), k) {
                proof {
                    assert(self@[i as int].0 == k@);
                    assert(spec_has_key(self@, k@));
                    let w = spec_key_index(self@, k@);
                    assert(0 <= w < self@.len() && self@[w].0 == k@);
                    if w < i as int {
                        assert(self@[w].0 != self@[i as int].0);
                    }
                    if w > i as int {
                        assert(self@[i as int].0 != self@[w].0);
                    }
                    assert(w == i as int);
                    assert(self@[i as int].1 == self.pairs@[i as int].1@);
                }
                return Some(&self.pairs[i].1);
            }
            i += 1;
        }
        assert(!spec_has_key(self@, k@));
        None
    }

    /// Inserts `k -> v`: overwrites in place when `k` is already present,
    /// appends otherwise.
    pub fn insert(&mut self, k: String, v: String)
        requires
            old(self).wf(),
        ensures
            final(self)@ == spec_insert(old(self)@, k@, v@),
            final(self).wf(),
    {
        let n = self.pairs.len();
        let mut i: usize = 0;
        while i < n
            invariant
                n == self@.len(),
                i <= n,
                self.wf(),
                self@ == old(self)@,
                forall|j: int| 0 <= j < i ==> self@[j].0 != k@,
            decreases n - i,
        {
            if crate::text::str_eq(self.pairs[i].0.as_str(), k.as_str()) {
                proof {
                    assert(self@[i as int].0 == k@);
                    assert(spec_has_key(self@, k@));
                    let w = spec_key_index(self@, k@);
                    assert(0 <= w < self@.len() && self@[w].0 == k@);
                    if w < i as int {
                        assert(self@[w].0 != self@[i as int].0);
                    }
                    if w > i as int {
                        assert(self@[i as int].0 != self@[w].0);
                    }
                    assert(w == i as int);
                }
                let ghost gk = k@;
                let ghost gv = v@;
                self.pairs.set(i, (k, v));
                proof {
                    assert(self@ =~= spec_insert(old(self)@, gk, gv));
                    assert forall|a: int, b: int| 0 <= a < b < self@.len() implies self@[a].0
                        != self@[b].0 by {
                        assert(old(self)@[a].0 != old(self)@[b].0);
                    }
                }
                return;
            }
            i += 1;
        }
        proof {
            assert(!spec_has_key(self@, k@));
        }
        let ghost gk = k@;
        let ghost gv = v@;
        self.pairs.push((k, v));
        proof {
            assert(self@ =~= spec_insert(old(self)@, gk, gv));
            assert forall|a: int, b: int| 0 <= a < b < self@.len() implies self@[a].0
                != self@[b].0 by {
                if b < old(self)@.len() {
                    assert(old(self)@[a].0 != old(self)@[b].0);
                } else {
                    assert(self@[b].0 == gk);
                    assert(old(self)@[a].0 != gk);
                }
            }
        }
    }
}

/// Last-write-wins law: after inserting `k -> v`, looking up `k` yields
/// `v`, every other key is unchanged, and the keys stay unique.
pub proof fn lemma_insert_last_write_wins(
    pairs: Seq<SpecPair>,
    k: Seq<char>,
    v: Seq<char>,
    k2: Seq<char>,
)
    requires
        forall|i: int, j: int| 0 <= i < j < pairs.len() ==> pairs[i].0 != pairs[j].0,
    ensures
        spec_lookup(spec_insert(pairs, k, v), k) == Some(v),
        k2 != k ==> spec_lookup(spec_insert(pairs, k, v), k2) == spec_lookup(pairs, k2),
{
    let after = spec_insert(pairs, k, v);
    if spec_has_key(pairs, k) {
        let i = spec_key_index(pairs, k);
        assert(0 <= i < pairs.len() && pairs[i].0 == k);
        assert(after[i].0 == k);
        assert(spec_has_key(after, k));
        let i2 = spec_key_index(after, k);
        assert(0 <= i2 < after.len() && after[i2].0 == k);
        if i2 != i {
            assert(pairs[i2].0 == k);
            assert(false);
        }
        if k2 != k {
            if spec_has_key(pairs, k2) {
                let j = spec_key_index(pairs, k2);
                assert(after[j].0 == k2 && 0 <= j < after.len());
                assert(spec_has_key(after, k2));
                let j2 = spec_key_index(after, k2);
                if j2 != i {
                    assert(pairs[j2].0 == k2);
                }
                if j2 != j {
                    assert(false);
                }
                assert(after[j2].1 == pairs[j].1);
            } else {
                assert forall|j: int| 0 <= j < after.len() implies after[j].0 != k2 by {
                    if j != i {
                        assert(after[j].0 == pairs[j].0);
                    }
                }
                assert(!spec_has_key(after, k2));
            }
        }
    } else {
        let i = pairs.len() as int;
        assert(after[i].0 == k);
        assert(spec_has_key(after, k));
        let i2 = spec_key_index(after, k);
        assert(0 <= i2 < after.len() && after[i2].0 == k);
        if i2 != i {
            assert(pairs[i2].0 == k);
            assert(false);
        }
        if k2 != k {
            if spec_has_key(pairs, k2) {
                let j = spec_key_index(pairs, k2);
                assert(after[j].0 == k2 && 0 <= j < after.len());
                assert(spec_has_key(after, k2));
                let j2 = spec_key_index(after, k2);
                assert(after[j2].0 == k2);
                if j2 == i {
                    assert(false);
                }
                assert(pairs[j2].0 == k2);
                if j2 != j {
                    assert(false);
                }
            } else {
                assert forall|j: int| 0 <= j < after.len() implies after[j].0 != k2 by {
                    if j != i {
                        assert(after[j].0 == pairs[j].0);
                    }
                }
                assert(!spec_has_key(after, k2));
            }
        }
    }
}

} // verus!
