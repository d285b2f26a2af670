//! Telling a user why a book is recommended.
use vstd::prelude::*;

use crate::entities::Book;
use crate::preference_map::PreferenceMap;
use crate::recommendation_service::RecommendationService;
use crate::text::{decimal, fixed_text, joined, push_decimal, push_fixed, push_joined};
use crate::units::SCALE;

verus! {

/// The affinity above which a genre is named as the reason for a
/// recommendation.
pub const STRONG_AFFINITY: u32 = 600_000;

/// The average rating above which a book is recommended for its quality.
pub const HIGH_RATING: u32 = 4_500_000;

/// Whether label `i` of `genres` has an affinity above [`STRONG_AFFINITY`].
pub open spec fn strong_match(genres: Seq<String>, prefs: Map<Seq<char>, int>, i: int) -> bool {
    prefs.contains_key(genres[i]@) && prefs[genres[i]@] > STRONG_AFFINITY
}

/// Among the first `k` labels of `genres` other than `skip`, the index of the
/// strong match with the highest affinity, the earliest on ties; -1 if none.
pub open spec fn best_match(genres: Seq<String>, prefs: Map<Seq<char>, int>, skip: int, k: int) -> int
    decreases k,
{
    if k <= 0 {
        -1
    } else {
        let b = best_match(genres, prefs, skip, k - 1);
        let i = k - 1;
        if i != skip && strong_match(genres, prefs, i) && (b < 0 || prefs[genres[i]@]
            > prefs[genres[b]@]) {
            i
        } else {
            b
        }
    }
}

/// A score in `[0, SCALE]` as a whole percentage, rounded half up.
pub open spec fn percent(score: int) -> int {
    (score + SCALE / 200) / (SCALE / 100) as int
}

/// Why a book is recommended: its two genres with the highest affinity above
/// [`STRONG_AFFINITY`], else its average rating where that is above
/// [`HIGH_RATING`], else the user's reading patterns; with the score as a
/// percentage.
pub open spec fn explanation(book: Book, prefs: Map<Seq<char>, int>, score: int) -> Seq<char> {
    let genres = book.genre@;
    let n = genres.len() as int;
    let first = best_match(genres, prefs, -1, n);
    let second = best_match(genres, prefs, first, n);
    let all = joined(genres, "/"@);
    let pct = decimal(percent(score) as nat);
    if first >= 0 {
        let top = if second >= 0 {
            seq![genres[first], genres[second]]
        } else {
            seq![genres[first]]
        };
        "You might like this "@ + all + " book because you enjoy "@ + joined(top, " and "@) + " ("@
            + pct + "% match)"@
    } else if book.average_rating > HIGH_RATING {
        "Highly rated "@ + all + " book ("@ + fixed_text(book.average_rating as nat) + "\u{2605}) - "@
            + pct + "% match based on your preferences"@
    } else {
        "Recommended "@ + all + " book based on your reading patterns ("@ + pct + "% match)"@
    }
}

/// The index of the strong match with the highest affinity among the labels
/// of `genres` other than `skip`, the earliest on ties.
fn best_strong_genre(genres: &Vec<String>, prefs: &PreferenceMap, skip: Option<usize>) -> (r: Option<
    usize,
>)
    ensures
        ({
            let s = match skip {
                Some(k) => k as int,
                None => -1,
            };
            let b = best_match(genres@, prefs@, s, genres@.len() as int);
            &&& r matches Some(i) ==> i as int == b && i < genres@.len()
            &&& r is None ==> b == -1
        }),
{
    let ghost s = match skip {
        Some(k) => k as int,
        None => -1,
    };
    let n = genres.len();
    let mut best: Option<usize> = None;
    let mut best_value: u32 = 0;
    let mut i: usize = 0;
    while i < n
        invariant
            n == genres@.len(),
            i <= n,
            s == match skip {
                Some(k) => k as int,
                None => -1,
            },
            best matches Some(b) ==> b < i && b as int == best_match(genres@, prefs@, s, i as int)
                && best_value as int == prefs@[genres@[b as int]@],
            best is None ==> best_match(genres@, prefs@, s, i as int) == -1,
        decreases n - i,
    {
        let is_skipped = match skip {
            Some(k) => k == i,
            None => false,
        };
        if !is_skipped {
            match prefs.get(&genres[i]) {
                Some(v) => {
                    if v > STRONG_AFFINITY {
                        let better = match best {
                            Some(_) => v > best_value,
                            None => true,
                        };
                        if better {
                            best = Some(i);
                            best_value = v;
                        }
                    }
                },
                None => {},
            }
        }
        i = i + 1;
    }
    best
}

impl RecommendationService {
    /// A sentence telling why `book` is recommended to a user with learned
    /// preferences `user_preferences`, with `score` as a percentage.
    pub fn generate_recommendation_explanation(
        &self,
        book: &Book,
        user_preferences: &PreferenceMap,
        score: u32,
    ) -> (r: String)
        ensures
            r@ == explanation(*book, user_preferences@, score as int),
    {
        let first = best_strong_genre(&book.genre, user_preferences, None);
        let pct = (score as u64 + (SCALE / 200) as u64) / (SCALE / 100) as u64;
        let mut s = String::new();
        match first {
            Some(f) => {
                let second = best_strong_genre(&book.genre, user_preferences, Some(f));
                let mut top: Vec<String> = Vec::new();
                top.push(book.genre[f].clone());
                match second {
                    Some(t) => top.push(book.genre[t].clone()),
                    None => {},
                }
                s.append("You might like this ");
                push_joined(&mut s, book.genre.as_slice(), "/");
                s.append(" book because you enjoy ");
                push_joined(&mut s, top.as_slice(), " and ");
                s.append(" (");
                push_decimal(&mut s, pct);
                s.append("% match)");
                proof {
                    let genres = book.genre@;
                    let expected = if second is Some {
                        seq![genres[f as int], genres[second->0 as int]]
                    } else {
                        seq![genres[f as int]]
                    };
                    assert(top@ =~= expected);
                }
            },
            None => {
                if book.average_rating > HIGH_RATING {
                    s.append("Highly rated ");
                    push_joined(&mut s, book.genre.as_slice(), "/");
                    s.append(" book (");
                    push_fixed(&mut s, book.average_rating);
                    s.append("\u{2605}) - ");
                    push_decimal(&mut s, pct);
                    s.append("% match based on your preferences");
                } else {
                    s.append("Recommended ");
                    push_joined(&mut s, book.genre.as_slice(), "/");
                    s.append(" book based on your reading patterns (");
                    push_decimal(&mut s, pct);
                    s.append("% match)");
                }
            },
        }
        assert(s@ =~= explanation(*book, user_preferences@, score as int));
        s
    }
}

} // verus!
