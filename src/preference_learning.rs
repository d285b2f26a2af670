//! Learning genre affinities: from a whole rating history, and online from
//! one new rating.
use vstd::prelude::*;

use crate::entities::Book;
use crate::preference_map::PreferenceMap;
use crate::recommendation_service::RecommendationService;
use crate::units::{clamp_unit, SCALE};

verus! {

/// How many labels of `genres` are `g`.
pub open spec fn occurrences(genres: Seq<String>, g: Seq<char>) -> nat
    decreases genres.len(),
{
    if genres.len() == 0 {
        0
    } else {
        occurrences(genres.drop_last(), g) + if genres.last()@ == g {
            1nat
        } else {
            0nat
        }
    }
}

/// How many ratings of `history` count toward genre `g`: a rating counts once
/// for each label `g` of its book.
pub open spec fn genre_count(history: Seq<(Book, u32)>, g: Seq<char>) -> nat
    decreases history.len(),
{
    if history.len() == 0 {
        0
    } else {
        genre_count(history.drop_last(), g) + occurrences(history.last().0.genre@, g)
    }
}

/// The sum of the ratings of `history` that count toward genre `g`.
pub open spec fn genre_total(history: Seq<(Book, u32)>, g: Seq<char>) -> nat
    decreases history.len(),
{
    if history.len() == 0 {
        0
    } else {
        genre_total(history.drop_last(), g) + occurrences(history.last().0.genre@, g)
            * (history.last().1 as nat)
    }
}

/// The number of genre labels over all books of `history`.
pub open spec fn label_count(history: Seq<(Book, u32)>) -> nat
    decreases history.len(),
{
    if history.len() == 0 {
        0
    } else {
        label_count(history.drop_last()) + history.last().0.genre@.len()
    }
}

/// The affinity of a genre whose `count` ratings sum to `total`: the mean
/// rating mapped from `[1, 5]` onto `[0, 1]`, that is `(mean - 1) / 4`,
/// rounded down and clamped.
pub open spec fn mean_affinity(total: int, count: int) -> int
    recommends
        count > 0,
{
    clamp_unit((total - count * SCALE) / (4 * count))
}

/// The preference map that a rating history yields: one entry for each genre
/// with at least one rating.
pub open spec fn history_preferences(history: Seq<(Book, u32)>) -> Map<Seq<char>, int> {
    Map::new(
        |g: Seq<char>| genre_count(history, g) > 0,
        |g: Seq<char>| mean_affinity(genre_total(history, g) as int, genre_count(history, g) as int),
    )
}

proof fn lemma_occurrences_take(genres: Seq<String>, j: int, g: Seq<char>)
    requires
        0 <= j < genres.len(),
    ensures
        occurrences(genres.take(j + 1), g) == occurrences(genres.take(j), g) + if genres[j]@ == g {
            1nat
        } else {
            0nat
        },
{
    assert(genres.take(j + 1).drop_last() =~= genres.take(j));
}

proof fn lemma_occurrences_bound(genres: Seq<String>, g: Seq<char>)
    ensures
        occurrences(genres, g) <= genres.len(),
    decreases genres.len(),
{
    if genres.len() > 0 {
        lemma_occurrences_bound(genres.drop_last(), g);
    }
}

proof fn lemma_history_take(history: Seq<(Book, u32)>, i: int, g: Seq<char>)
    requires
        0 <= i < history.len(),
    ensures
        genre_count(history.take(i + 1), g) == genre_count(history.take(i), g) + occurrences(
            history[i].0.genre@,
            g,
        ),
        genre_total(history.take(i + 1), g) == genre_total(history.take(i), g) + occurrences(
            history[i].0.genre@,
            g,
        ) * history[i].1,
        label_count(history.take(i + 1)) == label_count(history.take(i)) + history[i].0.genre@.len(),
{
    assert(history.take(i + 1).drop_last() =~= history.take(i));
}

proof fn lemma_history_bounds(history: Seq<(Book, u32)>, g: Seq<char>)
    ensures
        genre_count(history, g) <= label_count(history),
        genre_total(history, g) <= genre_count(history, g) * 0xffff_ffff,
    decreases history.len(),
{
    if history.len() > 0 {
        let last = history.last();
        lemma_history_bounds(history.drop_last(), g);
        lemma_occurrences_bound(last.0.genre@, g);
        let o = occurrences(last.0.genre@, g);
        assert(o * last.1 <= o * 0xffff_ffff) by (nonlinear_arith)
            requires
                last.1 <= 0xffff_ffff,
        ;
    }
}

proof fn lemma_label_prefix(history: Seq<(Book, u32)>, i: int)
    requires
        0 <= i <= history.len(),
    ensures
        label_count(history.take(i)) <= label_count(history),
    decreases history.len(),
{
    if i < history.len() {
        assert(history.drop_last().take(i) =~= history.take(i));
        lemma_label_prefix(history.drop_last(), i);
    } else {
        assert(history.take(i) =~= history);
    }
}

/// The affinity of a genre whose `count` ratings sum to `total`.
fn affinity_from(total: u128, count: u64) -> (r: u32)
    requires
        count > 0,
    ensures
        r as int == mean_affinity(total as int, count as int),
{
    assert(count as int * SCALE as int <= 0xffff_ffff_ffff_ffff * 1_000_000) by (nonlinear_arith)
        requires
            count <= 0xffff_ffff_ffff_ffffu64,
    ;
    let base = count as u128 * SCALE as u128;
    if total <= base {
        proof {
            let d = 4 * count as int;
            assert((total as int - base as int) / d <= 0) by (nonlinear_arith)
                requires
                    d > 0,
                    total as int - base as int <= 0,
            ;
        }
        0
    } else {
        let q = (total - base) / (4 * count as u128);
        if q > SCALE as u128 {
            SCALE
        } else {
            q as u32
        }
    }
}

/// The affinity a genre starts from in an online update when it has none.
pub open spec fn update_base(prefs: Map<Seq<char>, int>, g: Seq<char>) -> int {
    if prefs.contains_key(g) {
        prefs[g]
    } else {
        SCALE as int / 2
    }
}

/// One online step: `base + (rating - 3) / 2 * learning_rate`, rounded down
/// and clamped. `(rating - 3) / 2` maps a rating of 1 to 5 onto -1 to 1.
pub open spec fn update_step(base: int, rating: int, learning_rate: int) -> int {
    clamp_unit((2 * SCALE * base + (rating - 3 * SCALE) * learning_rate) / (2 * SCALE))
}

/// The map after one rating of a book with labels `genres`: each label in
/// turn gets one step from its current affinity.
pub open spec fn updated_preferences(
    prefs: Map<Seq<char>, int>,
    genres: Seq<String>,
    rating: int,
    learning_rate: int,
) -> Map<Seq<char>, int>
    decreases genres.len(),
{
    if genres.len() == 0 {
        prefs
    } else {
        let before = updated_preferences(prefs, genres.drop_last(), rating, learning_rate);
        let g = genres.last()@;
        before.insert(g, update_step(update_base(before, g), rating, learning_rate))
    }
}

/// Updating is a function of its arguments alone: equal maps updated with the
/// same book labels, rating and learning rate give equal maps. (The map that
/// is updated is only borrowed, so it is left as it was.)
pub proof fn lemma_update_repeatable(
    first: Map<Seq<char>, int>,
    second: Map<Seq<char>, int>,
    genres: Seq<String>,
    rating: int,
    learning_rate: int,
)
    requires
        first == second,
    ensures
        updated_preferences(first, genres, rating, learning_rate) == updated_preferences(
            second,
            genres,
            rating,
            learning_rate,
        ),
{
}

/// An update writes only the labels of the rated book: every other genre
/// keeps its entry, or its absence.
pub proof fn lemma_update_touches_only_book_genres(
    prefs: Map<Seq<char>, int>,
    genres: Seq<String>,
    rating: int,
    learning_rate: int,
    g: Seq<char>,
)
    requires
        forall|i: int| 0 <= i < genres.len() ==> genres[i]@ != g,
    ensures
        updated_preferences(prefs, genres, rating, learning_rate).contains_key(g) == prefs.contains_key(g),
        prefs.contains_key(g) ==> updated_preferences(prefs, genres, rating, learning_rate)[g] == prefs[g],
    decreases genres.len(),
{
    if genres.len() > 0 {
        lemma_update_touches_only_book_genres(prefs, genres.drop_last(), rating, learning_rate, g);
    }
}

/// The number of genre labels over all books of `history`, where it fits
/// in 64 bits.
pub fn count_labels(history: &[(Book, u32)]) -> (r: Option<u64>)
    ensures
        r matches Some(c) ==> c == label_count(history@),
        r is None ==> label_count(history@) > u64::MAX,
{
    let n = history.len();
    let mut total: u64 = 0;
    let mut i: usize = 0;
    assert(history@.take(0) =~= Seq::<(Book, u32)>::empty());
    while i < n
        invariant
            n == history@.len(),
            i <= n,
            total == label_count(history@.take(i as int)),
        decreases n - i,
    {
        proof {
            lemma_history_take(history@, i as int, Seq::empty());
            lemma_label_prefix(history@, i + 1);
        }
        let m = history[i].0.genre.len() as u64;
        if total > u64::MAX - m {
            return None;
        }
        total = total + m;
        i = i + 1;
    }
    assert(history@.take(n as int) =~= history@);
    Some(total)
}

impl RecommendationService {
    /// The preference map learned from a rating history: for each genre with
    /// at least one rating, the mean of its ratings mapped onto `[0, 1]`.
    /// A rating counts toward every genre label of its book.
    #[verifier::spinoff_prover]
    #[verifier::rlimit(40)]
    pub fn calculate_preference_scores(&self, user_ratings: &[(Book, u32)]) -> (r: PreferenceMap)
        requires
            label_count(user_ratings@) <= u64::MAX,
        ensures
            r@ == history_preferences(user_ratings@),
    {
        let ghost h = user_ratings@;
        let mut labels: Vec<String> = Vec::new();
        let mut counts: Vec<u64> = Vec::new();
        let mut totals: Vec<u128> = Vec::new();
        let n = user_ratings.len();
        let mut i: usize = 0;
        while i < n
            invariant
                n == h.len(),
                h == user_ratings@,
                i <= n,
                label_count(h) <= u64::MAX,
                labels@.len() == counts@.len() == totals@.len(),
                forall|a: int, b: int| 0 <= a < b < labels@.len() ==> labels@[a]@ != labels@[b]@,
                forall|k: int| 0 <= k < labels@.len() ==> {
                    &&& counts@[k] == genre_count(h.take(i as int), #[trigger] labels@[k]@)
                    &&& totals@[k] == genre_total(h.take(i as int), labels@[k]@)
                    &&& counts@[k] > 0
                },
                forall|g: Seq<char>| #[trigger] genre_count(h.take(i as int), g) > 0 ==> exists|k: int|
                    0 <= k < labels@.len() && labels@[k]@ == g,
            decreases n - i,
        {
            let rating = user_ratings[i].1;
            let genres = &user_ratings[i].0.genre;
            let m = genres.len();
            let ghost before = h.take(i as int);
            proof {
                lemma_label_prefix(h, i + 1);
                assert forall|g: Seq<char>| genre_count(h.take(i + 1), g) == genre_count(before, g)
                    + occurrences(genres@, g) by {
                    lemma_history_take(h, i as int, g);
                }
                lemma_history_take(h, i as int, Seq::<char>::empty());
            }
            let mut j: usize = 0;
            proof {
                let none = genres@.take(0);
                assert(none =~= Seq::<String>::empty());
                assert forall|a: int| 0 <= a < labels@.len() implies {
                    &&& counts@[a] == genre_count(before, #[trigger] labels@[a]@) + occurrences(none, labels@[a]@)
                    &&& totals@[a] == genre_total(before, labels@[a]@) + occurrences(none, labels@[a]@) * rating
                } by {
                    assert(occurrences(none, labels@[a]@) == 0);
                }
            }
            while j < m
                invariant
                    n == h.len(),
                    h == user_ratings@,
                    i < n,
                    before == h.take(i as int),
                    genres@ == h[i as int].0.genre@,
                    rating == h[i as int].1,
                    m == genres@.len(),
                    j <= m,
                    label_count(before) + m <= u64::MAX,
                    labels@.len() == counts@.len() == totals@.len(),
                    forall|a: int, b: int| 0 <= a < b < labels@.len() ==> labels@[a]@ != labels@[b]@,
                    forall|k: int| 0 <= k < labels@.len() ==> {
                        &&& counts@[k] == genre_count(before, #[trigger] labels@[k]@) + occurrences(
                            genres@.take(j as int),
                            labels@[k]@,
                        )
                        &&& totals@[k] == genre_total(before, labels@[k]@) + occurrences(
                            genres@.take(j as int),
                            labels@[k]@,
                        ) * rating
                        &&& counts@[k] > 0
                    },
                    forall|g: Seq<char>|
                        #![trigger genre_count(before, g)]
                        #![trigger occurrences(genres@.take(j as int), g)]
                        genre_count(before, g) + occurrences(genres@.take(j as int), g) > 0
                            ==> exists|k: int| 0 <= k < labels@.len() && labels@[k]@ == g,
                decreases m - j,
            {
                let label = &genres[j];
                let ghost key = label@;
                proof {
                    assert forall|g: Seq<char>| occurrences(genres@.take(j + 1), g) == occurrences(
                        genres@.take(j as int),
                        g,
                    ) + if genres@[j as int]@ == g {
                        1nat
                    } else {
                        0nat
                    } by {
                        lemma_occurrences_take(genres@, j as int, g);
                    }
                    lemma_history_bounds(before, key);
                    lemma_occurrences_bound(genres@.take(j as int), key);
                }
                let ghost old_labels = labels@;
                let ghost old_counts = counts@;
                let ghost old_totals = totals@;
                let mut k: usize = 0;
                while k < labels.len()
                    invariant
                        k <= labels@.len(),
                        key == label@,
                        forall|a: int| 0 <= a < k ==> labels@[a]@ != key,
                    ensures
                        k < labels@.len() ==> labels@[k as int]@ == key,
                        k == labels@.len() ==> forall|a: int| 0 <= a < labels@.len() ==> labels@[a]@ != key,
                    decreases labels@.len() - k,
                {
                    if labels[k] == *label {
                        break;
                    }
                    k = k + 1;
                }
                if k < labels.len() {
                    let c = counts[k];
                    let t = totals[k];
                    proof {
                        assert(c == genre_count(before, key) + occurrences(genres@.take(j as int), key));
                        assert(t <= c * 0xffff_ffffu64) by (nonlinear_arith)
                            requires
                                t == genre_total(before, key) + occurrences(genres@.take(j as int), key) * rating,
                                genre_total(before, key) <= genre_count(before, key) * 0xffff_ffff,
                                c == genre_count(before, key) + occurrences(genres@.take(j as int), key),
                                rating <= 0xffff_ffff,
                        ;
                        assert(c * 0xffff_ffffu64 <= 0xffff_ffff_ffff_ffffu64 * 0xffff_ffffu64) by (nonlinear_arith)
                            requires c <= 0xffff_ffff_ffff_ffffu64;
                    }
                    counts.set(k, c + 1);
                    totals.set(k, t + rating as u128);
                } else {
                    labels.push(label.clone());
                    counts.push(1);
                    totals.push(rating as u128);
                    proof {
                        assert(genre_count(before, key) + occurrences(genres@.take(j as int), key) == 0);
                    }
                }
                proof {
                    let next = genres@.take(j + 1);
                    assert forall|a: int| 0 <= a < labels@.len() implies {
                        &&& counts@[a] == genre_count(before, #[trigger] labels@[a]@) + occurrences(next, labels@[a]@)
                        &&& totals@[a] == genre_total(before, labels@[a]@) + occurrences(next, labels@[a]@) * rating
                        &&& counts@[a] > 0
                    } by {
                        let g = labels@[a]@;
                        lemma_occurrences_take(genres@, j as int, g);
                        let o = occurrences(genres@.take(j as int), g);
                        assert((o + 1) * rating == o * rating + rating) by (nonlinear_arith);
                        if a < old_labels.len() {
                            assert(old_labels[a]@ == g);
                            assert(old_counts[a] == genre_count(before, old_labels[a]@) + o);
                            assert(old_totals[a] == genre_total(before, old_labels[a]@) + o * rating);
                            if a == k {
                                assert(counts@[a] == old_counts[a] + 1);
                                assert(totals@[a] == old_totals[a] + rating);
                            } else {
                                assert(g != key);
                                assert(counts@[a] == old_counts[a]);
                                assert(totals@[a] == old_totals[a]);
                            }
                        } else {
                            assert(g == key);
                            assert(o == 0);
                            assert(genre_count(before, g) == 0);
                            assert(genre_total(before, g) == 0);
                            assert(totals@[a] == rating);
                        }
                        assert(counts@[a] == genre_count(before, g) + occurrences(next, g));
                        assert(totals@[a] == genre_total(before, g) + occurrences(next, g) * rating);
                        assert(counts@[a] > 0);
                    }
                    assert forall|g: Seq<char>|
                        genre_count(before, g) + occurrences(next, g) > 0
                            implies exists|a: int| 0 <= a < labels@.len() && labels@[a]@ == g by {
                        lemma_occurrences_take(genres@, j as int, g);
                        if g == key {
                            assert(labels@[k as int]@ == key);
                        } else {
                            assert(genre_count(before, g) + occurrences(genres@.take(j as int), g) > 0);
                            let a = choose|a: int| 0 <= a < old_labels.len() && old_labels[a]@ == g;
                            assert(labels@[a]@ == g);
                        }
                    }
                }
                j = j + 1;
            }
            proof {
                assert(genres@.take(m as int) =~= genres@);
                assert forall|g: Seq<char>| #[trigger] genre_total(h.take(i + 1), g) == genre_total(before, g)
                    + occurrences(genres@, g) * rating by {
                    lemma_history_take(h, i as int, g);
                }
            }
            i = i + 1;
        }
        assert(h.take(n as int) =~= h);
        let mut r = PreferenceMap::new();
        let count = labels.len();
        let mut k: usize = 0;
        while k < count
            invariant
                count == labels@.len() == counts@.len() == totals@.len(),
                k <= count,
                forall|a: int, b: int| 0 <= a < b < labels@.len() ==> labels@[a]@ != labels@[b]@,
                forall|a: int| 0 <= a < count ==> {
                    &&& counts@[a] == genre_count(h, #[trigger] labels@[a]@)
                    &&& totals@[a] == genre_total(h, labels@[a]@)
                    &&& counts@[a] > 0
                },
                forall|a: int| 0 <= a < k ==> #[trigger] r@.contains_key(labels@[a]@) && r@[labels@[a]@]
                    == mean_affinity(totals@[a] as int, counts@[a] as int),
                forall|g: Seq<char>| #[trigger] r@.contains_key(g) ==> exists|a: int|
                    0 <= a < k && labels@[a]@ == g,
            decreases count - k,
        {
            assert(counts@[k as int] == genre_count(h, labels@[k as int]@));
            let value = affinity_from(totals[k], counts[k]);
            let ghost prev = r@;
            r.insert(labels[k].clone(), value);
            proof {
                assert forall|a: int| 0 <= a < k + 1 implies #[trigger] r@.contains_key(labels@[a]@)
                    && r@[labels@[a]@] == mean_affinity(totals@[a] as int, counts@[a] as int) by {
                    if a < k {
                        assert(prev.contains_key(labels@[a]@));
                    }
                }
            }
            k = k + 1;
        }
        proof {
            assert forall|g: Seq<char>| #[trigger] r@.contains_key(g) == history_preferences(h).contains_key(g) by {
                if genre_count(h, g) > 0 {
                    let a = choose|a: int| 0 <= a < labels@.len() && labels@[a]@ == g;
                    assert(r@.contains_key(labels@[a]@));
                }
            }
            assert forall|g: Seq<char>| #[trigger] r@.contains_key(g) implies r@[g] == history_preferences(h)[g] by {
                let a = choose|a: int| 0 <= a < k && labels@[a]@ == g;
                assert(r@.contains_key(labels@[a]@));
            }
            assert(r@ =~= history_preferences(h));
        }
        r
    }

    /// The preference map after a new rating of `book`, from a copy of
    /// `current_preferences`. Each genre label of the book in turn moves from
    /// its current affinity, or from one half where it has none, by
    /// `(rating - 3) / 2 * learning_rate`, clamped to `[0, 1]`.
    pub fn update_user_preferences(
        &self,
        current_preferences: &PreferenceMap,
        book: &Book,
        rating: u32,
        learning_rate: u32,
    ) -> (r: PreferenceMap)
        ensures
            r@ == updated_preferences(
                current_preferences@,
                book.genre@,
                rating as int,
                learning_rate as int,
            ),
    {
        let mut updated = current_preferences.clone();
        let genres = &book.genre;
        let n = genres.len();
        let mut j: usize = 0;
        assert(genres@.take(0) =~= Seq::<String>::empty());
        while j < n
            invariant
                n == genres@.len(),
                j <= n,
                updated@ == updated_preferences(
                    current_preferences@,
                    genres@.take(j as int),
                    rating as int,
                    learning_rate as int,
                ),
            decreases n - j,
        {
            let base: u32 = match updated.get(&genres[j]) {
                Some(v) => v,
                None => SCALE / 2,
            };
            proof {
                let signed = rating as int - 3 * SCALE as int;
                assert(-3_000_000 <= signed <= 0xffff_ffff);
                assert(-3_000_000 * 0xffff_ffff <= signed * learning_rate <= 0xffff_ffff * 0xffff_ffff)
                    by (nonlinear_arith)
                    requires
                        -3_000_000 <= signed <= 0xffff_ffff,
                        0 <= learning_rate <= 0xffff_ffff,
                ;
                assert(0 <= 2 * SCALE as int * base <= 2 * 1_000_000 * 1_000_000) by (nonlinear_arith)
                    requires
                        0 <= base <= 1_000_000,
                ;
            }
            let num: i128 = 2 * (SCALE as i128) * (base as i128) + (rating as i128 - 3 * (SCALE as i128))
                * (learning_rate as i128);
            let value: u32 = if num < 0 {
                proof {
                    let d = 2 * SCALE as int;
                    assert(num as int / d <= 0) by (nonlinear_arith)
                        requires
                            d > 0,
                            num < 0,
                    ;
                }
                0
            } else {
                let q = num / (2 * SCALE as i128);
                if q > SCALE as i128 {
                    SCALE
                } else {
                    q as u32
                }
            };
            proof {
                let t = genres@.take(j + 1);
                assert(t.drop_last() =~= genres@.take(j as int));
                assert(t.last() == genres@[j as int]);
            }
            updated.insert(genres[j].clone(), value);
            j = j + 1;
        }
        assert(genres@.take(n as int) =~= genres@);
        updated
    }
}

} // verus!
