use book_recommendation::entities::{Book, User};
use book_recommendation::errors::RequestError;
use book_recommendation::preference_learning::count_labels;
use book_recommendation::preference_map::PreferenceMap;
use book_recommendation::recommendation_service::RecommendationService;
use book_recommendation::scoring::ScoredCandidate;

fn units(x: f64) -> u32 {
    (x * 1_000_000.0).round() as u32
}

fn as_fraction(v: u32) -> f64 {
    v as f64 / 1_000_000.0
}

fn create_test_book(title: &str, genres: Vec<&str>, rating: f64) -> Book {
    Book {
        id: uuid::Uuid::new_v4().as_u128(),
        title: title.to_string(),
        author: "Test Author".to_string(),
        isbn: None,
        description: "Test description".to_string(),
        genre: genres.into_iter().map(String::from).collect(),
        tags: vec![],
        publication_year: 2023,
        publisher: "Test Publisher".to_string(),
        language: "English".to_string(),
        page_count: 300,
        cover_image_url: None,
        average_rating: units(rating),
        ratings_count: 100,
        created_at: 0,
        updated_at: 0,
        created_by: uuid::Uuid::new_v4().as_u128(),
    }
}

fn book_with(genres: Vec<&str>, rating: f64, count: u32) -> Book {
    let mut b = create_test_book("Some Book", genres, rating);
    b.ratings_count = count;
    b
}

fn user_declaring(genres: Vec<&str>) -> User {
    let mut u = User::new(
        "reader@example.com".to_string(),
        "reader".to_string(),
        "hash".to_string(),
        "Ada".to_string(),
        "Reader".to_string(),
    );
    u.preferences = genres.into_iter().map(String::from).collect();
    u
}

fn prefs(entries: Vec<(&str, f64)>) -> PreferenceMap {
    let mut m = PreferenceMap::new();
    for (g, v) in entries {
        m.insert(g.to_string(), units(v));
    }
    m
}

fn get(m: &PreferenceMap, g: &str) -> Option<u32> {
    m.get(&g.to_string())
}

#[test]
fn test_calculate_preference_scores() {
    let service = RecommendationService::new();

    let book1 = create_test_book("Book 1", vec!["Fiction", "Romance"], 4.0);
    let book2 = create_test_book("Book 2", vec!["Fiction", "Mystery"], 5.0);
    let book3 = create_test_book("Book 3", vec!["Romance"], 3.0);

    let user_ratings = vec![(book1, units(4.0)), (book2, units(5.0)), (book3, units(3.0))];

    let scores = service.calculate_preference_scores(&user_ratings);

    // Fiction: (4.0 + 5.0) / 2 = 4.5 -> normalized: (4.5 - 1.0) / 4.0 = 0.875
    assert!((as_fraction(get(&scores, "Fiction").unwrap()) - 0.875).abs() < 0.01);

    // Romance: (4.0 + 3.0) / 2 = 3.5 -> normalized: (3.5 - 1.0) / 4.0 = 0.625
    assert!((as_fraction(get(&scores, "Romance").unwrap()) - 0.625).abs() < 0.01);

    // Mystery: 5.0 -> normalized: (5.0 - 1.0) / 4.0 = 1.0
    assert!((as_fraction(get(&scores, "Mystery").unwrap()) - 1.0).abs() < 0.01);
}

#[test]
fn test_score_book_for_user() {
    let service = RecommendationService::new();

    let book = create_test_book("Test Book", vec!["Fiction"], 4.5);

    let mut user_preferences = PreferenceMap::new();
    user_preferences.insert("Fiction".to_string(), units(0.8));

    let score = service.score_book_for_user(&book, &user_preferences, units(4.0));

    // Should be a weighted average of genre preference (0.8), rating score, and popularity
    assert!(score > 0 && score <= 1_000_000);
}

#[test]
fn history_of_one_rating_gives_its_affinity() {
    let service = RecommendationService::new();
    let history = vec![(create_test_book("A", vec!["Fiction"], 4.0), units(4.0))];
    let scores = service.calculate_preference_scores(&history);
    assert_eq!(get(&scores, "Fiction"), Some(750_000));
    assert_eq!(scores.as_slice().len(), 1);
}

#[test]
fn exact_affinities_from_history() {
    let service = RecommendationService::new();
    let history = vec![
        (create_test_book("Book 1", vec!["Fiction", "Romance"], 4.0), units(4.0)),
        (create_test_book("Book 2", vec!["Fiction", "Mystery"], 5.0), units(5.0)),
        (create_test_book("Book 3", vec!["Romance"], 3.0), units(3.0)),
    ];
    let scores = service.calculate_preference_scores(&history);
    assert_eq!(get(&scores, "Fiction"), Some(875_000));
    assert_eq!(get(&scores, "Romance"), Some(625_000));
    assert_eq!(get(&scores, "Mystery"), Some(1_000_000));
    assert_eq!(get(&scores, "Horror"), None);
    assert_eq!(scores.as_slice().len(), 3);
}

#[test]
fn empty_history_gives_empty_map() {
    let service = RecommendationService::new();
    let scores = service.calculate_preference_scores(&[]);
    assert!(scores.as_slice().is_empty());
}

#[test]
fn lowest_ratings_give_zero_not_absence() {
    let service = RecommendationService::new();
    let history = vec![(create_test_book("A", vec!["Horror"], 1.0), units(1.0))];
    let scores = service.calculate_preference_scores(&history);
    assert_eq!(get(&scores, "Horror"), Some(0));
}

#[test]
fn repeated_label_counts_twice() {
    let service = RecommendationService::new();
    let history = vec![
        (create_test_book("A", vec!["Fiction", "Fiction"], 5.0), units(5.0)),
        (create_test_book("B", vec!["Fiction"], 2.0), units(2.0)),
    ];
    let scores = service.calculate_preference_scores(&history);
    // (5 + 5 + 2) / 3 = 4 -> 0.75
    assert_eq!(get(&scores, "Fiction"), Some(750_000));
}

#[test]
fn update_from_empty_map_starts_at_one_half() {
    let service = RecommendationService::new();
    let book = create_test_book("A", vec!["Fiction"], 4.0);
    let current = PreferenceMap::new();
    let updated = service.update_user_preferences(&current, &book, units(5.0), units(0.5));
    assert_eq!(get(&updated, "Fiction"), Some(1_000_000));
    assert!(current.as_slice().is_empty());
}

#[test]
fn update_moves_existing_affinity() {
    let service = RecommendationService::new();
    let book = create_test_book("A", vec!["Fiction", "Drama"], 4.0);
    let current = prefs(vec![("Fiction", 0.4), ("Poetry", 0.9)]);
    // signed = (2 - 3) / 2 = -0.5; step = -0.5 * 0.2 = -0.1
    let updated = service.update_user_preferences(&current, &book, units(2.0), units(0.2));
    assert_eq!(get(&updated, "Fiction"), Some(300_000));
    assert_eq!(get(&updated, "Drama"), Some(400_000));
    assert_eq!(get(&updated, "Poetry"), Some(900_000));
}

#[test]
fn update_clamps_at_zero() {
    let service = RecommendationService::new();
    let book = create_test_book("A", vec!["Fiction"], 4.0);
    let current = prefs(vec![("Fiction", 0.1)]);
    let updated = service.update_user_preferences(&current, &book, units(1.0), units(1.0));
    assert_eq!(get(&updated, "Fiction"), Some(0));
}

#[test]
fn update_leaves_current_alone_and_repeats() {
    let service = RecommendationService::new();
    let book = create_test_book("A", vec!["Fiction", "Mystery"], 4.0);
    let current = prefs(vec![("Fiction", 0.7)]);
    let first = service.update_user_preferences(&current, &book, units(4.0), units(0.3));
    let second = service.update_user_preferences(&current, &book, units(4.0), units(0.3));
    assert_eq!(get(&current, "Fiction"), Some(700_000));
    assert_eq!(get(&current, "Mystery"), None);
    assert_eq!(get(&first, "Fiction"), get(&second, "Fiction"));
    assert_eq!(get(&first, "Mystery"), get(&second, "Mystery"));
    assert_eq!(get(&first, "Fiction"), Some(850_000));
    assert_eq!(get(&first, "Mystery"), Some(650_000));
}

#[test]
fn insert_clamps_to_one() {
    let mut m = PreferenceMap::new();
    m.insert("Fiction".to_string(), 3_000_000);
    assert_eq!(get(&m, "Fiction"), Some(1_000_000));
    m.insert("Fiction".to_string(), 200_000);
    assert_eq!(get(&m, "Fiction"), Some(200_000));
    assert_eq!(m.as_slice().len(), 1);
}

#[test]
fn score_formula_exact() {
    let service = RecommendationService::new();
    // genre 0.9, quality (4.5 - 1) / 4 = 0.875, popularity 1.0
    let book = book_with(vec!["Fiction"], 4.5, 1000);
    let p = prefs(vec![("Fiction", 0.9)]);
    assert_eq!(service.score_book_for_user(&book, &p, 0), 902_500);
    // genre absent counts as 0; quality 0.5; popularity 0.01
    let other = book_with(vec!["Romance"], 3.0, 10);
    assert_eq!(service.score_book_for_user(&other, &p, 0), 151_000);
}

#[test]
fn score_takes_highest_genre_affinity() {
    let service = RecommendationService::new();
    let book = book_with(vec!["Drama", "Fiction", "Poetry"], 1.0, 0);
    let p = prefs(vec![("Drama", 0.2), ("Fiction", 0.5), ("Poetry", 0.3)]);
    assert_eq!(service.score_book_for_user(&book, &p, 0), 300_000);
}

#[test]
fn score_unrated_book_has_no_quality() {
    let service = RecommendationService::new();
    let book = book_with(vec!["Fiction"], 0.0, 0);
    let p = PreferenceMap::new();
    assert_eq!(service.score_book_for_user(&book, &p, 0), 0);
}

#[test]
fn score_does_not_depend_on_other_candidates() {
    let service = RecommendationService::new();
    let p = prefs(vec![("Fiction", 0.6), ("Romance", 0.3)]);
    let a = book_with(vec!["Fiction"], 4.0, 50);
    let b = book_with(vec!["Romance"], 3.5, 500);
    let alone = service.score_book_for_user(&a, &p, 0);
    let after_b = {
        let _ = service.score_book_for_user(&b, &p, 0);
        service.score_book_for_user(&a, &p, 0)
    };
    assert_eq!(alone, after_b);
}

fn candidate(title: &str, score: u32) -> ScoredCandidate {
    ScoredCandidate { book: create_test_book(title, vec!["Fiction"], 4.0), score, reason: None }
}

#[test]
fn rank_is_stable_and_descending() {
    let service = RecommendationService::new();
    let scored = vec![
        candidate("a", 500_000),
        candidate("b", 700_000),
        candidate("c", 500_000),
        candidate("d", 900_000),
        candidate("e", 700_000),
    ];
    let ranked = service.rank_candidates(scored, 10);
    let titles: Vec<&str> = ranked.iter().map(|c| c.book.title.as_str()).collect();
    assert_eq!(titles, vec!["d", "b", "e", "a", "c"]);
}

#[test]
fn rank_truncates_to_limit() {
    let service = RecommendationService::new();
    let scored = vec![candidate("a", 100), candidate("b", 300), candidate("c", 200)];
    let ranked = service.rank_candidates(scored, 2);
    let titles: Vec<&str> = ranked.iter().map(|c| c.book.title.as_str()).collect();
    assert_eq!(titles, vec!["b", "c"]);
    let none = service.rank_candidates(vec![], 5);
    assert!(none.is_empty());
}

#[test]
fn validate_request_limits() {
    let service = RecommendationService::new();
    let user = uuid::Uuid::new_v4().as_u128();
    assert_eq!(service.validate_recommendation_request(user, None), Ok(10));
    assert_eq!(service.validate_recommendation_request(user, Some(0)), Err(RequestError::InvalidLimit));
    assert_eq!(service.validate_recommendation_request(user, Some(150)), Ok(100));
    assert_eq!(service.validate_recommendation_request(user, Some(100)), Ok(100));
    assert_eq!(service.validate_recommendation_request(user, Some(1)), Ok(1));
    assert_eq!(service.validate_recommendation_request(user, Some(37)), Ok(37));
    assert_eq!(service.validate_recommendation_request(0, Some(5)), Err(RequestError::InvalidUser));
    assert_eq!(service.validate_recommendation_request(0, None), Err(RequestError::InvalidUser));
}

#[test]
fn select_excludes_read_books() {
    let service = RecommendationService::new();
    let user = user_declaring(vec!["Fiction"]);
    let read = book_with(vec!["Fiction"], 5.0, 10);
    let unread = book_with(vec!["Fiction"], 4.0, 10);
    let read_id = read.id;
    let unread_id = unread.id;
    let selected = service.filter_candidate_books(vec![read, unread], &user, &[read_id], 0);
    let ids: Vec<u128> = selected.iter().map(|b| b.id).collect();
    assert_eq!(ids, vec![unread_id]);
}

#[test]
fn select_needs_rating_and_shared_genre() {
    let service = RecommendationService::new();
    let user = user_declaring(vec!["Fiction", "History"]);
    let low = book_with(vec!["Fiction"], 2.5, 10);
    let other_genre = book_with(vec!["Romance"], 4.8, 10);
    let good = book_with(vec!["Romance", "History"], 3.0, 10);
    let exact = book_with(vec!["Fiction"], 3.0, 10);
    let good_id = good.id;
    let exact_id = exact.id;
    let selected =
        service.filter_candidate_books(vec![low, other_genre, good, exact], &user, &[], units(3.0));
    let ids: Vec<u128> = selected.iter().map(|b| b.id).collect();
    assert_eq!(ids, vec![good_id, exact_id]);
}

#[test]
fn end_to_end_places_preferred_book_first() {
    let service = RecommendationService::new();
    let user = user_declaring(vec!["Fiction", "Romance"]);
    let mut book_a = book_with(vec!["Fiction"], 4.5, 1000);
    book_a.title = "BookA".to_string();
    let mut book_b = book_with(vec!["Romance"], 3.0, 10);
    book_b.title = "BookB".to_string();
    let p = prefs(vec![("Fiction", 0.9)]);
    let out = service.recommend(&user, vec![book_b, book_a], &[], &p, 0, None, false).unwrap();
    assert_eq!(out.len(), 2);
    assert_eq!(out[0].book.title, "BookA");
    assert_eq!(out[1].book.title, "BookB");
    assert!(out[0].score > out[1].score);
    assert!(out[0].reason.is_none());
}

#[test]
fn end_to_end_with_reasons_and_limit() {
    let service = RecommendationService::new();
    let user = user_declaring(vec!["Fiction", "Romance"]);
    let book_a = book_with(vec!["Fiction"], 4.5, 1000);
    let book_b = book_with(vec!["Romance"], 3.0, 10);
    let p = prefs(vec![("Fiction", 0.9)]);
    let out = service.recommend(&user, vec![book_a, book_b], &[], &p, 0, Some(1), true).unwrap();
    assert_eq!(out.len(), 1);
    assert_eq!(
        out[0].reason.as_deref(),
        Some("You might like this Fiction book because you enjoy Fiction (90% match)")
    );
}

#[test]
fn end_to_end_rejects_bad_requests() {
    let service = RecommendationService::new();
    let mut user = user_declaring(vec!["Fiction"]);
    let p = PreferenceMap::new();
    let r = service.recommend(&user, vec![], &[], &p, 0, Some(0), false);
    assert!(matches!(r, Err(RequestError::InvalidLimit)));
    user.id = 0;
    let r = service.recommend(&user, vec![], &[], &p, 0, None, false);
    assert!(matches!(r, Err(RequestError::InvalidUser)));
}

#[test]
fn explanation_names_two_strongest_genres() {
    let service = RecommendationService::new();
    let book = book_with(vec!["Drama", "Fiction", "Mystery"], 3.0, 10);
    let p = prefs(vec![("Drama", 0.65), ("Fiction", 0.95), ("Mystery", 0.8)]);
    let text = service.generate_recommendation_explanation(&book, &p, 876_543);
    assert_eq!(
        text,
        "You might like this Drama/Fiction/Mystery book because you enjoy Fiction and Mystery (88% match)"
    );
}

#[test]
fn explanation_for_highly_rated_book() {
    let service = RecommendationService::new();
    let book = book_with(vec!["Poetry", "History"], 4.75, 10);
    let p = prefs(vec![("Poetry", 0.6)]);
    let text = service.generate_recommendation_explanation(&book, &p, 725_000);
    assert_eq!(text, "Highly rated Poetry/History book (4.75\u{2605}) - 73% match based on your preferences");
}

#[test]
fn explanation_for_reading_patterns() {
    let service = RecommendationService::new();
    let book = book_with(vec!["Poetry"], 4.5, 10);
    let p = PreferenceMap::new();
    let text = service.generate_recommendation_explanation(&book, &p, 44_999);
    assert_eq!(text, "Recommended Poetry book based on your reading patterns (4% match)");
    let full = service.generate_recommendation_explanation(&book, &p, 1_000_000);
    assert_eq!(full, "Recommended Poetry book based on your reading patterns (100% match)");
}

#[test]
fn label_count_of_history() {
    let history = vec![
        (create_test_book("A", vec!["Fiction", "Romance"], 4.0), units(4.0)),
        (create_test_book("B", vec!["Mystery"], 4.0), units(4.0)),
    ];
    assert_eq!(count_labels(&history), Some(3));
    assert_eq!(count_labels(&[]), Some(0));
}
