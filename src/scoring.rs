//! Choosing, scoring and ranking candidate books.
use vstd::prelude::*;

use crate::entities::{Book, User};
use crate::preference_map::PreferenceMap;
use crate::recommendation_service::RecommendationService;
use crate::units::{clamp_unit, SCALE};
use vstd::set_lib::{lemma_int_range, lemma_subset_equality, set_int_range};

verus! {

/// Weight of the genre component in a score, in tenths.
pub const GENRE_WEIGHT: u64 = 6;

/// Weight of the quality component in a score, in tenths.
pub const QUALITY_WEIGHT: u64 = 3;

/// Weight of the popularity component in a score, in tenths.
pub const POPULARITY_WEIGHT: u64 = 1;

/// The rating count from which a book counts as fully popular.
pub const POPULARITY_CAP: u32 = 1000;

/// The highest affinity among the labels of `genres` that have an entry in
/// `prefs`; 0 when none has.
pub open spec fn genre_component(genres: Seq<String>, prefs: Map<Seq<char>, int>) -> int
    decreases genres.len(),
{
    if genres.len() == 0 {
        0
    } else {
        let rest = genre_component(genres.drop_last(), prefs);
        let g = genres.last()@;
        if prefs.contains_key(g) && prefs[g] > rest {
            prefs[g]
        } else {
            rest
        }
    }
}

/// The average rating mapped from `[1, 5]` onto `[0, 1]`, rounded down and clamped.
pub open spec fn quality_component(average_rating: int) -> int {
    clamp_unit((average_rating - SCALE) / 4)
}

/// The rating count, capped, as a share of the cap.
pub open spec fn popularity_component(ratings_count: int) -> int {
    let c = if ratings_count < POPULARITY_CAP as int {
        ratings_count
    } else {
        POPULARITY_CAP as int
    };
    c * (SCALE / POPULARITY_CAP) as int
}

/// The weighted mean of the three components, rounded down.
pub open spec fn book_score(book: Book, prefs: Map<Seq<char>, int>) -> int {
    let weights = GENRE_WEIGHT + QUALITY_WEIGHT + POPULARITY_WEIGHT;
    if weights > 0 {
        (GENRE_WEIGHT * genre_component(book.genre@, prefs) + QUALITY_WEIGHT * quality_component(
            book.average_rating as int,
        ) + POPULARITY_WEIGHT * popularity_component(book.ratings_count as int)) / weights as int
    } else {
        0
    }
}

/// The scores of `books` for a user with learned preferences `prefs`.
pub open spec fn book_scores(books: Seq<Book>, prefs: Map<Seq<char>, int>) -> Seq<int> {
    books.map_values(|b: Book| book_score(b, prefs))
}

/// Whether some label of `genres` is also a label of `wanted`.
pub open spec fn shares_genre(genres: Seq<String>, wanted: Seq<String>) -> bool {
    exists|i: int, j: int| 0 <= i < genres.len() && 0 <= j < wanted.len() && genres[i]@ == wanted[j]@
}

/// Whether a book is a candidate: not read, rated at least `min_rating`, and
/// sharing a genre with the user's declared ones.
pub open spec fn eligible(book: Book, read_ids: Seq<u128>, wanted: Seq<String>, min_rating: u32) -> bool {
    &&& !read_ids.contains(book.id)
    &&& book.average_rating >= min_rating
    &&& shares_genre(book.genre@, wanted)
}

/// Whether `ids` holds `id`.
fn contains_id(ids: &[u128], id: u128) -> (r: bool)
    ensures
        r == ids@.contains(id),
{
    let n = ids.len();
    let mut i: usize = 0;
    while i < n
        invariant
            n == ids@.len(),
            i <= n,
            forall|j: int| 0 <= j < i ==> ids@[j] != id,
        decreases n - i,
    {
        if ids[i] == id {
            assert(ids@[i as int] == id);
            return true;
        }
        i = i + 1;
    }
    false
}

/// Whether some label of `genres` is a label of `wanted`.
fn has_shared_genre(genres: &Vec<String>, wanted: &Vec<String>) -> (r: bool)
    ensures
        r == shares_genre(genres@, wanted@),
{
    let n = genres.len();
    let m = wanted.len();
    let mut i: usize = 0;
    while i < n
        invariant
            n == genres@.len(),
            m == wanted@.len(),
            i <= n,
            forall|a: int, b: int| 0 <= a < i && 0 <= b < m ==> genres@[a]@ != wanted@[b]@,
        decreases n - i,
    {
        let mut j: usize = 0;
        while j < m
            invariant
                n == genres@.len(),
                m == wanted@.len(),
                i < n,
                j <= m,
                forall|a: int, b: int| 0 <= a < i && 0 <= b < m ==> genres@[a]@ != wanted@[b]@,
                forall|b: int| 0 <= b < j ==> genres@[i as int]@ != wanted@[b]@,
            decreases m - j,
        {
            if genres[i] == wanted[j] {
                assert(genres@[i as int]@ == wanted@[j as int]@);
                return true;
            }
            j = j + 1;
        }
        i = i + 1;
    }
    false
}

/// A book with its score and, when asked for, the reason it is recommended.
pub struct ScoredCandidate {
    pub book: Book,
    pub score: u32,
    pub reason: Option<String>,
}

/// Whether the item at `a` comes before the item at `b` when items are
/// ordered by descending key, equal keys keeping their order.
pub open spec fn ranks_before(keys: Seq<int>, a: int, b: int) -> bool {
    keys[a] > keys[b] || (keys[a] == keys[b] && a < b)
}

/// Whether `order` lists every index of `keys` once, by descending key,
/// indices with equal keys in increasing order.
pub open spec fn is_ranking(keys: Seq<int>, order: Seq<int>) -> bool {
    &&& order.len() == keys.len()
    &&& forall|k: int| 0 <= k < order.len() ==> 0 <= #[trigger] order[k] < keys.len()
    &&& forall|k: int, l: int| 0 <= k < l < order.len() ==> ranks_before(keys, order[k], order[l])
}

/// The scores of a sequence of candidates.
pub open spec fn scores_of(s: Seq<ScoredCandidate>) -> Seq<int> {
    s.map_values(|c: ScoredCandidate| c.score as int)
}

/// The smaller of a limit and a length.
pub open spec fn capped_len(limit: usize, len: int) -> int {
    if (limit as int) < len {
        limit as int
    } else {
        len
    }
}

/// A book's score depends on the book and the preferences alone: wherever it
/// stands in whichever list of candidates, it gets the same score.
pub proof fn lemma_score_independent_of_candidates(
    first: Seq<Book>,
    second: Seq<Book>,
    prefs: Map<Seq<char>, int>,
    i: int,
    j: int,
)
    requires
        0 <= i < first.len(),
        0 <= j < second.len(),
        first[i] == second[j],
    ensures
        book_scores(first, prefs)[i] == book_scores(second, prefs)[j],
        book_scores(first, prefs)[i] == book_score(first[i], prefs),
{
}

/// Ranking is stable: of two candidates with equal scores, the one that came
/// first in the input comes first in the output.
pub proof fn lemma_ranking_stable(keys: Seq<int>, order: Seq<int>, k: int, l: int)
    requires
        is_ranking(keys, order),
        0 <= k < l < order.len(),
        keys[order[k]] == keys[order[l]],
    ensures
        order[k] < order[l],
{
    assert(ranks_before(keys, order[k], order[l]));
}

/// A ranking orders candidates by descending score.
pub proof fn lemma_ranking_sorted(keys: Seq<int>, order: Seq<int>, k: int, l: int)
    requires
        is_ranking(keys, order),
        0 <= k < l < order.len(),
    ensures
        keys[order[k]] >= keys[order[l]],
{
    assert(ranks_before(keys, order[k], order[l]));
}

/// A book the user has read is never a candidate, whatever its rating and
/// genres.
pub proof fn lemma_read_books_excluded(
    catalog: Seq<Book>,
    read_ids: Seq<u128>,
    wanted: Seq<String>,
    min_rating: u32,
    book: Book,
)
    requires
        read_ids.contains(book.id),
    ensures
        !catalog.filter(|b: Book| eligible(b, read_ids, wanted, min_rating)).contains(book),
{
    let pred = |b: Book| eligible(b, read_ids, wanted, min_rating);
    let selected = catalog.filter(pred);
    if selected.contains(book) {
        let i = choose|i: int| 0 <= i < selected.len() && selected[i] == book;
        catalog.lemma_filter_pred(pred, i);
    }
}

/// A ranking lists every index of its keys.
proof fn lemma_ranking_covers(keys: Seq<int>, order: Seq<int>, x: int)
    requires
        is_ranking(keys, order),
        0 <= x < keys.len(),
    ensures
        order.contains(x),
{
    let n = keys.len() as int;
    assert forall|k: int, l: int| 0 <= k < order.len() && 0 <= l < order.len() && k != l implies order[k]
        != order[l] by {
        if k < l {
            assert(ranks_before(keys, order[k], order[l]));
        } else {
            assert(ranks_before(keys, order[l], order[k]));
        }
    }
    assert(order.no_duplicates());
    order.unique_seq_to_set();
    let range = set_int_range(0, n);
    lemma_int_range(0, n);
    assert(order.to_set().subset_of(range));
    order.lemma_cardinality_of_set();
    lemma_subset_equality(order.to_set(), range);
    assert(range.contains(x));
}

proof fn lemma_rankings_agree_up_to(keys: Seq<int>, first: Seq<int>, second: Seq<int>, k: int)
    requires
        is_ranking(keys, first),
        is_ranking(keys, second),
        0 <= k < first.len(),
    ensures
        forall|j: int| 0 <= j <= k ==> first[j] == second[j],
    decreases k,
{
    if k > 0 {
        lemma_rankings_agree_up_to(keys, first, second, k - 1);
    }
    let x = first[k];
    let y = second[k];
    if x != y {
        lemma_ranking_covers(keys, second, x);
        lemma_ranking_covers(keys, first, y);
        let p = choose|p: int| 0 <= p < second.len() && second[p] == x;
        let q = choose|q: int| 0 <= q < first.len() && first[q] == y;
        if p < k {
            assert(first[p] == x);
            assert(ranks_before(keys, first[p], first[k]));
        }
        if q < k {
            assert(second[q] == y);
            assert(ranks_before(keys, second[q], second[k]));
        }
        assert(ranks_before(keys, second[k], second[p]));
        assert(ranks_before(keys, first[k], first[q]));
    }
}

/// There is only one ranking of a list of keys, so ranked output is
/// determined by its input.
pub proof fn lemma_ranking_unique(keys: Seq<int>, first: Seq<int>, second: Seq<int>)
    requires
        is_ranking(keys, first),
        is_ranking(keys, second),
    ensures
        first == second,
{
    if first.len() > 0 {
        lemma_rankings_agree_up_to(keys, first, second, first.len() - 1);
    }
    assert(first =~= second);
}

impl RecommendationService {
    /// The score of `book` for a user with learned preferences
    /// `user_preferences`, in `[0, 1]`: the weighted mean of the highest
    /// affinity among the book's genres (0 when none has one), its average
    /// rating mapped onto `[0, 1]`, and its rating count as a share of 1000.
    /// `user_avg_rating` takes no part in it.
    pub fn score_book_for_user(
        &self,
        book: &Book,
        user_preferences: &PreferenceMap,
        user_avg_rating: u32,
    ) -> (r: u32)
        ensures
            r as int == book_score(*book, user_preferences@),
            r <= SCALE,
    {
        let genres = &book.genre;
        let n = genres.len();
        let mut genre_score: u32 = 0;
        let mut j: usize = 0;
        assert(genres@.take(0) =~= Seq::<String>::empty());
        while j < n
            invariant
                n == genres@.len(),
                j <= n,
                genre_score as int == genre_component(genres@.take(j as int), user_preferences@),
                genre_score <= SCALE,
            decreases n - j,
        {
            proof {
                let t = genres@.take(j + 1);
                assert(t.drop_last() =~= genres@.take(j as int));
                assert(t.last() == genres@[j as int]);
            }
            match user_preferences.get(&genres[j]) {
                Some(v) => {
                    if v > genre_score {
                        genre_score = v;
                    }
                },
                None => {},
            }
            j = j + 1;
        }
        assert(genres@.take(n as int) =~= genres@);
        let quality: u32 = if book.average_rating <= SCALE {
            0
        } else {
            let q = (book.average_rating - SCALE) / 4;
            if q > SCALE {
                SCALE
            } else {
                q
            }
        };
        let capped: u32 = if book.ratings_count < POPULARITY_CAP {
            book.ratings_count
        } else {
            POPULARITY_CAP
        };
        assert(SCALE / POPULARITY_CAP == 1000);
        assert(capped * 1000 <= 1_000_000) by (nonlinear_arith)
            requires
                capped <= 1000,
        ;
        let popularity: u32 = capped * (SCALE / POPULARITY_CAP);
        let weights = GENRE_WEIGHT + QUALITY_WEIGHT + POPULARITY_WEIGHT;
        if weights > 0 {
            let sum = GENRE_WEIGHT * genre_score as u64 + QUALITY_WEIGHT * quality as u64 + POPULARITY_WEIGHT
                * popularity as u64;
            assert(sum <= 10 * SCALE);
            (sum / weights) as u32
        } else {
            0
        }
    }

    /// The books of `all_books`, in their order, that the user has not read,
    /// whose average rating is at least `min_rating`, and that share a genre
    /// with the genres the user declared.
    pub fn filter_candidate_books(
        &self,
        all_books: Vec<Book>,
        user: &User,
        read_book_ids: &[u128],
        min_rating: u32,
    ) -> (r: Vec<Book>)
        ensures
            r@ == all_books@.filter(|b: Book| eligible(b, read_book_ids@, user.preferences@, min_rating)),
    {
        let ghost pred = |b: Book| eligible(b, read_book_ids@, user.preferences@, min_rating);
        let ghost orig = all_books@;
        let mut out: Vec<Book> = Vec::new();
        assert(orig.take(0) =~= Seq::<Book>::empty());
        proof {
            reveal(Seq::filter);
        }
        for book in it: all_books
            invariant
                pred == (|b: Book| eligible(b, read_book_ids@, user.preferences@, min_rating)),
                it.seq() == orig,
                out@ == orig.take(it.index() as int).filter(pred),
        {
            let ghost i = it.index() as int;
            let ghost b = book;
            let ghost prev = out@;
            let keep = !contains_id(read_book_ids, book.id) && book.average_rating >= min_rating
                && has_shared_genre(&book.genre, &user.preferences);
            assert(keep == pred(b));
            if keep {
                out.push(book);
            }
            proof {
                let t = orig.take(i + 1);
                assert(t.drop_last() =~= orig.take(i));
                assert(t.last() == b);
                reveal(Seq::filter);
                assert(orig.take(i + 1).filter(pred) == if pred(b) {
                    orig.take(i).filter(pred).push(b)
                } else {
                    orig.take(i).filter(pred)
                });
            }
        }
        assert(orig.take(orig.len() as int) =~= orig);
        out
    }

    /// The first `limit` candidates of `scored` by descending score, candidates
    /// with equal scores keeping their order in `scored`.
    pub fn rank_candidates(&self, scored: Vec<ScoredCandidate>, limit: usize) -> (r: Vec<ScoredCandidate>)
        ensures
            r@.len() == capped_len(limit, scored@.len() as int),
            exists|order: Seq<int>|
                is_ranking(scores_of(scored@), order) && forall|k: int|
                    0 <= k < r@.len() ==> r@[k] == scored@[#[trigger] order[k]],
    {
        let ghost orig = scored@;
        let ghost keys = scores_of(orig);
        let ghost mut order: Seq<int> = Seq::empty();
        let n = scored.len();
        let mut rest = scored;
        let mut out: Vec<ScoredCandidate> = Vec::new();
        while rest.len() > 0
            invariant
                keys == scores_of(orig),
                n == orig.len(),
                rest@ == orig.subrange(n - rest@.len(), n as int),
                rest@.len() <= n,
                order.len() == out@.len() == n - rest@.len(),
                forall|k: int| 0 <= k < order.len() ==> 0 <= #[trigger] order[k] < n - rest@.len(),
                forall|k: int, l: int| 0 <= k < l < order.len() ==> ranks_before(keys, order[k], order[l]),
                forall|k: int| 0 <= k < out@.len() ==> out@[k] == orig[#[trigger] order[k]],
            decreases rest@.len(),
        {
            let ghost i = n - rest@.len();
            let item = rest.remove(0);
            assert(item == orig[i]);
            assert(rest@ =~= orig.subrange(n - rest@.len(), n as int));
            let mut p: usize = 0;
            while p < out.len() && out[p].score >= item.score
                invariant
                    p <= out@.len(),
                    forall|q: int| 0 <= q < p ==> out@[q].score >= item.score,
                decreases out@.len() - p,
            {
                p = p + 1;
            }
            proof {
                assert forall|q: int| p <= q < out@.len() implies out@[q].score < item.score by {
                    if q > p {
                        assert(ranks_before(keys, order[p as int], order[q]));
                        assert(keys[order[p as int]] == out@[p as int].score);
                        assert(keys[order[q]] == out@[q].score);
                    }
                }
            }
            let ghost prev_order = order;
            let ghost prev_out = out@;
            out.insert(p, item);
            proof {
                order = order.insert(p as int, i);
                assert(keys[i] == item.score);
                assert forall|k: int| 0 <= k < out@.len() implies out@[k] == orig[#[trigger] order[k]] by {
                    if k < p {
                        assert(out@[k] == prev_out[k]);
                    } else if k > p {
                        assert(out@[k] == prev_out[k - 1]);
                    }
                }
                assert forall|k: int, l: int| 0 <= k < l < order.len() implies ranks_before(keys, order[k], order[l]) by {
                    if k < p && l == p {
                        assert(keys[prev_order[k]] == prev_out[k].score);
                    } else if k == p && l > p {
                        assert(keys[prev_order[l - 1]] == prev_out[l - 1].score);
                    } else if k < p && l > p {
                        assert(ranks_before(keys, prev_order[k], prev_order[l - 1]));
                    } else if k > p {
                        assert(ranks_before(keys, prev_order[k - 1], prev_order[l - 1]));
                    }
                }
                assert forall|k: int| 0 <= k < order.len() implies 0 <= #[trigger] order[k] < n - rest@.len() by {
                    if k < p {
                        assert(order[k] == prev_order[k]);
                    } else if k > p {
                        assert(order[k] == prev_order[k - 1]);
                    }
                }
            }
        }
        let ghost full = out@;
        out.truncate(limit);
        proof {
            assert(keys.len() == n);
            assert(is_ranking(keys, order));
            assert forall|k: int| 0 <= k < out@.len() implies out@[k] == orig[#[trigger] order[k]] by {
                assert(out@[k] == full[k]);
            }
        }
        out
    }
}

} // verus!
