//! The recommendation engine and its end-to-end pipeline: validate the
//! request, choose and score candidates, rank them, explain them.
use vstd::prelude::*;

use crate::entities::{Book, User};
use crate::errors::RequestError;
use crate::explanation::explanation;
use crate::preference_map::PreferenceMap;
use crate::scoring::{book_score, book_scores, capped_len, eligible, is_ranking, scores_of, ScoredCandidate};

verus! {

/// How many recommendations a request gets when it names no number.
pub const DEFAULT_LIMIT: usize = 10;

/// The most recommendations a request gets.
pub const MAX_LIMIT: usize = 100;

/// The limit a request asks for, or why it is rejected.
pub open spec fn validated_limit(user_id: u128, limit: Option<usize>) -> Result<usize, RequestError> {
    if user_id == 0 {
        Err(RequestError::InvalidUser)
    } else {
        match limit {
            None => Ok(DEFAULT_LIMIT),
            Some(l) => if l == 0 {
                Err(RequestError::InvalidLimit)
            } else if l > MAX_LIMIT {
                Ok(MAX_LIMIT)
            } else {
                Ok(l)
            },
        }
    }
}

/// The recommendation engine. It holds no state: every operation is a pure
/// function of its arguments.
pub struct RecommendationService;

impl RecommendationService {
    pub fn new() -> (r: Self) {
        RecommendationService
    }

    /// The number of recommendations to return for a request: 10 when none
    /// is asked for, at most 100, and an error for the nil user or for zero.
    pub fn validate_recommendation_request(&self, user_id: u128, limit: Option<usize>) -> (r: Result<
        usize,
        RequestError,
    >)
        ensures
            r == validated_limit(user_id, limit),
    {
        if user_id == 0 {
            return Err(RequestError::InvalidUser);
        }
        match limit {
            Some(l) => if l > MAX_LIMIT {
                Ok(MAX_LIMIT)
            } else if l == 0 {
                Err(RequestError::InvalidLimit)
            } else {
                Ok(l)
            },
            None => Ok(DEFAULT_LIMIT),
        }
    }

    /// Recommendations for `user`: the candidates of `catalog` (see
    /// [`Self::filter_candidate_books`]), scored with `preferences`, ranked
    /// by [`Self::rank_candidates`] up to the validated limit, each with its
    /// explanation when `include_reasons` holds.
    pub fn recommend(
        &self,
        user: &User,
        catalog: Vec<Book>,
        read_book_ids: &[u128],
        preferences: &PreferenceMap,
        min_rating: u32,
        limit: Option<usize>,
        include_reasons: bool,
    ) -> (r: Result<Vec<ScoredCandidate>, RequestError>)
        ensures
            match validated_limit(user.id, limit) {
                Err(e) => r == Err::<Vec<ScoredCandidate>, RequestError>(e),
                Ok(l) => r matches Ok(v) && {
                    let cands = catalog@.filter(
                        |b: Book| eligible(b, read_book_ids@, user.preferences@, min_rating),
                    );
                    &&& v@.len() == capped_len(l, cands.len() as int)
                    &&& exists|order: Seq<int>|
                        is_ranking(book_scores(cands, preferences@), order) && forall|k: int|
                            0 <= k < v@.len() ==> {
                                let b = cands[#[trigger] order[k]];
                                &&& v@[k].book == b
                                &&& v@[k].score == book_score(b, preferences@)
                                &&& include_reasons ==> (v@[k].reason matches Some(t) && t@
                                    == explanation(b, preferences@, v@[k].score as int))
                                &&& !include_reasons ==> v@[k].reason is None
                            }
                },
            },
    {
        let l = match self.validate_recommendation_request(user.id, limit) {
            Ok(l) => l,
            Err(e) => return Err(e),
        };
        let candidates = self.filter_candidate_books(catalog, user, read_book_ids, min_rating);
        let ghost cands = candidates@;
        let n = candidates.len();
        let mut scored: Vec<ScoredCandidate> = Vec::new();
        for book in it: candidates
            invariant
                n == cands.len(),
                it.seq() == cands,
                scored@.len() == it.index(),
                forall|k: int| 0 <= k < scored@.len() ==> {
                    &&& (#[trigger] scored@[k]).book == cands[k]
                    &&& scored@[k].score == book_score(cands[k], preferences@)
                    &&& scored@[k].reason is None
                },
        {
            let score = self.score_book_for_user(&book, preferences, 0);
            scored.push(ScoredCandidate { book, score, reason: None });
        }
        proof {
            assert(scores_of(scored@) =~= book_scores(cands, preferences@));
        }
        let ghost before_rank = scored@;
        let mut ranked = self.rank_candidates(scored, l);
        let ghost order = choose|order: Seq<int>|
            is_ranking(scores_of(before_rank), order) && forall|k: int|
                0 <= k < ranked@.len() ==> ranked@[k] == before_rank[#[trigger] order[k]];
        let m = ranked.len();
        let mut out: Vec<ScoredCandidate> = Vec::new();
        while ranked.len() > 0
            invariant
                m == capped_len(l, n as int),
                n == cands.len(),
                ranked@.len() <= m,
                out@.len() == m - ranked@.len(),
                is_ranking(book_scores(cands, preferences@), order),
                forall|k: int| 0 <= k < ranked@.len() ==> ranked@[k] == before_rank[order[k + (m - ranked@.len())]],
                forall|k: int| 0 <= k < n ==> {
                    &&& (#[trigger] before_rank[k]).book == cands[k]
                    &&& before_rank[k].score == book_score(cands[k], preferences@)
                },
                forall|k: int| 0 <= k < out@.len() ==> {
                    let b = cands[#[trigger] order[k]];
                    &&& out@[k].book == b
                    &&& out@[k].score == book_score(b, preferences@)
                    &&& include_reasons ==> (out@[k].reason matches Some(t) && t@ == explanation(
                        b,
                        preferences@,
                        out@[k].score as int,
                    ))
                    &&& !include_reasons ==> out@[k].reason is None
                },
            decreases ranked@.len(),
        {
            let ghost done = m - ranked@.len();
            let item = ranked.remove(0);
            assert(item == before_rank[order[done]]);
            proof {
                let j = order[done];
                assert(book_scores(cands, preferences@).len() == n);
                assert(0 <= j < n);
                assert(before_rank[j].book == cands[j]);
            }
            let ghost prev = out@;
            assert forall|k: int| 0 <= k < ranked@.len() implies ranked@[k] == before_rank[order[k + (m - ranked@.len())]] by {
                assert(k + (m - ranked@.len()) == (k + 1) + done);
            }
            let reason = if include_reasons {
                Some(self.generate_recommendation_explanation(&item.book, preferences, item.score))
            } else {
                None
            };
            out.push(ScoredCandidate { book: item.book, score: item.score, reason });
            assert(out@[done].book == cands[order[done]]);
            assert(forall|k: int| 0 <= k < done ==> out@[k] == prev[k]);
        }
        Ok(out)
    }
}

} // verus!
