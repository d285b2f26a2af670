//! A mapping from genre label to affinity in `[0, SCALE]`.
use vstd::prelude::*;

use crate::units::{clamp_unit, SCALE};

verus! {

/// One entry of a [`PreferenceMap`].
pub struct GenreScore {
    pub genre: String,
    pub score: u32,
}

/// The affinity recorded for genre `g` in `s`, where a later entry wins.
spec fn lookup(s: Seq<GenreScore>, g: Seq<char>) -> Option<int>
    decreases s.len(),
{
    if s.len() == 0 {
        None
    } else if s.last().genre@ == g {
        Some(s.last().score as int)
    } else {
        lookup(s.drop_last(), g)
    }
}

/// Genre label to affinity. A genre without an entry is distinct from a
/// genre whose affinity is zero.
pub struct PreferenceMap {
    entries: Vec<GenreScore>,
}

impl View for PreferenceMap {
    type V = Map<Seq<char>, int>;

    closed spec fn view(&self) -> Map<Seq<char>, int> {
        Map::new(
            |g: Seq<char>| lookup(self.entries@, g) is Some,
            |g: Seq<char>| lookup(self.entries@, g)->0,
        )
    }
}

/// Appending an entry changes only the affinity of its genre.
proof fn lemma_lookup_push(s: Seq<GenreScore>, e: GenreScore, g: Seq<char>)
    ensures
        lookup(s.push(e), g) == if e.genre@ == g {
            Some(e.score as int)
        } else {
            lookup(s, g)
        },
{
    assert(s.push(e).drop_last() =~= s);
}

/// Replacing the entry of a key that occurs nowhere else changes only that key.
proof fn lemma_lookup_update(s: Seq<GenreScore>, i: int, e: GenreScore, g: Seq<char>)
    requires
        0 <= i < s.len(),
        s[i].genre@ == e.genre@,
        forall|j: int| 0 <= j < s.len() && j != i ==> s[j].genre@ != e.genre@,
    ensures
        lookup(s.update(i, e), g) == if e.genre@ == g {
            Some(e.score as int)
        } else {
            lookup(s, g)
        },
    decreases s.len(),
{
    let t = s.update(i, e);
    if i == s.len() - 1 {
        assert(t.drop_last() =~= s.drop_last());
    } else {
        assert(t.drop_last() =~= s.drop_last().update(i, e));
        lemma_lookup_update(s.drop_last(), i, e, g);
    }
}

/// A genre without an entry has no affinity.
proof fn lemma_lookup_absent(s: Seq<GenreScore>, g: Seq<char>)
    requires
        forall|j: int| 0 <= j < s.len() ==> s[j].genre@ != g,
    ensures
        lookup(s, g) is None,
    decreases s.len(),
{
    if s.len() > 0 {
        lemma_lookup_absent(s.drop_last(), g);
    }
}

/// The entry of a genre that occurs once gives its affinity.
proof fn lemma_lookup_unique(s: Seq<GenreScore>, i: int, g: Seq<char>)
    requires
        0 <= i < s.len(),
        s[i].genre@ == g,
        forall|j: int| 0 <= j < s.len() && j != i ==> s[j].genre@ != g,
    ensures
        lookup(s, g) == Some(s[i].score as int),
    decreases s.len(),
{
    if i == s.len() - 1 {
    } else {
        lemma_lookup_unique(s.drop_last(), i, g);
    }
}

impl Clone for GenreScore {
    fn clone(&self) -> (r: Self)
        ensures
            r == *self,
    {
        GenreScore { genre: self.genre.clone(), score: self.score }
    }
}

impl Clone for PreferenceMap {
    /// An independent copy with the same entries.
    fn clone(&self) -> (r: Self)
        ensures
            r@ == self@,
    {
        proof {
            use_type_invariant(self);
        }
        let mut entries: Vec<GenreScore> = Vec::new();
        let n = self.entries.len();
        let mut i: usize = 0;
        while i < n
            invariant
                n == self.entries@.len(),
                i <= n,
                entries@ == self.entries@.take(i as int),
            decreases n - i,
        {
            entries.push(self.entries[i].clone());
            assert(entries@ =~= self.entries@.take(i + 1));
            i = i + 1;
        }
        assert(entries@ =~= self.entries@);
        PreferenceMap { entries }
    }
}

impl PreferenceMap {
    #[verifier::type_invariant]
    spec fn well_formed(&self) -> bool {
        &&& forall|i: int, j: int|
            0 <= i < j < self.entries@.len() ==> self.entries@[i].genre@ != self.entries@[j].genre@
        &&& forall|i: int| 0 <= i < self.entries@.len() ==> self.entries@[i].score <= SCALE
    }

    /// The map without entries.
    pub fn new() -> (r: Self)
        ensures
            r@ == Map::<Seq<char>, int>::empty(),
    {
        let r = PreferenceMap { entries: Vec::new() };
        assert(r@ =~= Map::<Seq<char>, int>::empty());
        r
    }

    /// The entries, one per genre with an affinity.
    pub fn as_slice(&self) -> (r: &[GenreScore])
        ensures
            forall|i: int| 0 <= i < r@.len() ==> #[trigger] self@.contains_key(r@[i].genre@)
                && self@[r@[i].genre@] == r@[i].score as int,
            forall|g: Seq<char>| #[trigger] self@.contains_key(g) ==> exists|i: int| 0 <= i < r@.len() && r@[i].genre@ == g,
            forall|i: int, j: int| 0 <= i < j < r@.len() ==> r@[i].genre@ != r@[j].genre@,
    {
        proof {
            use_type_invariant(self);
            let s = self.entries@;
            assert forall|i: int| 0 <= i < s.len() implies #[trigger] self@.contains_key(s[i].genre@)
                && self@[s[i].genre@] == s[i].score as int by {
                lemma_lookup_unique(s, i, s[i].genre@);
            }
            assert forall|g: Seq<char>| #[trigger] self@.contains_key(g) implies exists|i: int| 0 <= i < s.len() && s[i].genre@ == g by {
                if forall|j: int| 0 <= j < s.len() ==> s[j].genre@ != g {
                    lemma_lookup_absent(s, g);
                }
            }
        }
        self.entries.as_slice()
    }

    /// The affinity recorded for `genre`, if any.
    pub fn get(&self, genre: &String) -> (r: Option<u32>)
        ensures
            r matches Some(v) ==> self@.contains_key(genre@) && self@[genre@] == v as int
                && v <= SCALE,
            r is None ==> !self@.contains_key(genre@),
    {
        proof {
            use_type_invariant(self);
        }
        let n = self.entries.len();
        let mut i: usize = n;
        assert(self.entries@.take(n as int) =~= self.entries@);
        while i > 0
            invariant
                i <= n == self.entries@.len(),
                lookup(self.entries@, genre@) == lookup(self.entries@.take(i as int), genre@),
                forall|j: int| 0 <= j < n ==> self.entries@[j].score <= SCALE,
            decreases i,
        {
            let ghost t = self.entries@.take(i as int);
            assert(t.drop_last() =~= self.entries@.take(i - 1));
            assert(t.last() == self.entries@[i - 1]);
            if self.entries[i - 1].genre == *genre {
                assert(lookup(t, genre@) == Some(self.entries@[i - 1].score as int));
                assert(self.entries@[i - 1].score <= SCALE);
                return Some(self.entries[i - 1].score);
            }
            i = i - 1;
        }
        None
    }

    /// Record `score`, clamped to `[0, SCALE]`, as the affinity of `genre`,
    /// replacing any earlier one.
    pub fn insert(&mut self, genre: String, score: u32)
        ensures
            final(self)@ == old(self)@.insert(genre@, clamp_unit(score as int)),
    {
        proof {
            use_type_invariant(&*self);
        }
        let value = if score > SCALE {
            SCALE
        } else {
            score
        };
        let mut entries: Vec<GenreScore> = Vec::new();
        std::mem::swap(&mut entries, &mut self.entries);
        let ghost before = entries@;
        let n = entries.len();
        let mut i: usize = 0;
        while i < n
            invariant
                n == entries@.len(),
                entries@ == before,
                i <= n,
                forall|j: int| 0 <= j < i ==> entries@[j].genre@ != genre@,
            ensures
                i < n ==> entries@[i as int].genre@ == genre@,
                i == n ==> forall|j: int| 0 <= j < n ==> entries@[j].genre@ != genre@,
            decreases n - i,
        {
            if entries[i].genre == genre {
                break;
            }
            i = i + 1;
        }
        let ghost key = genre@;
        let entry = GenreScore { genre, score: value };
        if i < n {
            entries.set(i, entry);
            proof {
                assert(entries@ == before.update(i as int, entry));
                assert forall|g: Seq<char>|
                    lookup(entries@, g) == (if key == g { Some(value as int) } else { lookup(before, g) }) by {
                    lemma_lookup_update(before, i as int, entry, g);
                }
            }
        } else {
            entries.push(entry);
            proof {
                assert forall|g: Seq<char>|
                    lookup(entries@, g) == (if key == g { Some(value as int) } else { lookup(before, g) }) by {
                    lemma_lookup_push(before, entry, g);
                }
            }
        }
        self.entries = entries;
        assert(self@ =~= old(self)@.insert(key, clamp_unit(score as int)));
    }
}

} // verus!
