use book_recommendation::book_service::BookService;
use book_recommendation::entities::{Book, BookRating};
use book_recommendation::errors::DomainError;

fn units(x: f64) -> u32 {
    (x * 1_000_000.0).round() as u32
}

fn sample_book() -> Book {
    Book::new(
        "Dune".to_string(),
        "Frank Herbert".to_string(),
        "A desert planet.".to_string(),
        vec!["Fiction".to_string(), "Adventure".to_string()],
        1965,
        "Chilton".to_string(),
        "English".to_string(),
        412,
        uuid::Uuid::new_v4().as_u128(),
    )
}

#[test]
fn test_calculate_new_average_rating() {
    // Test first rating
    let average = BookService::calculate_new_average_rating(units(0.0), 0, units(4.5));
    assert_eq!(average, units(4.5));

    // Test adding second rating
    let average = BookService::calculate_new_average_rating(units(4.5), 1, units(3.5));
    assert_eq!(average, units(4.0));

    // Test adding third rating: 13 / 3, to the nearest millionth
    let average = BookService::calculate_new_average_rating(units(4.0), 2, units(5.0));
    assert_eq!(average, 4_333_333);
}

#[test]
fn average_rounds_to_nearest() {
    // (2 * 1 + 2) / 3 = 1.333... ; (1 * 1 + 3) / 2 = 2 ; 5/3 rounds up
    assert_eq!(BookService::calculate_new_average_rating(1, 1, 0), 1);
    assert_eq!(BookService::calculate_new_average_rating(1, 2, 3), 2);
    assert_eq!(BookService::calculate_new_average_rating(2, 2, 1), 2);
    assert_eq!(BookService::calculate_new_average_rating(1, 1, 2), 2);
}

#[test]
fn new_book_is_unrated() {
    let book = sample_book();
    assert_eq!(book.average_rating, 0);
    assert_eq!(book.ratings_count, 0);
    assert_eq!(book.created_at, book.updated_at);
    assert!(book.tags.is_empty());
    assert_ne!(book.id, 0);
}

#[test]
fn rating_stats_are_updated() {
    let service = BookService::new();
    let mut book = sample_book();
    service.update_book_rating_stats(&mut book, units(4.5));
    assert_eq!(book.average_rating, units(4.5));
    assert_eq!(book.ratings_count, 1);
    service.update_book_rating_stats(&mut book, units(3.5));
    assert_eq!(book.average_rating, units(4.0));
    assert_eq!(book.ratings_count, 2);
    assert_eq!(book.title, "Dune");
}

#[test]
fn validate_book_rules() {
    let service = BookService::new();
    let mut book = sample_book();
    assert_eq!(service.validate_book(&book), Ok(()));

    book.title = " \t\u{a0} ".to_string();
    assert_eq!(
        service.validate_book(&book),
        Err(DomainError::InvalidInput("Book title cannot be empty".to_string()))
    );
    book.title = "Dune".to_string();
    book.author = String::new();
    assert_eq!(
        service.validate_book(&book),
        Err(DomainError::InvalidInput("Book author cannot be empty".to_string()))
    );
    book.author = "Frank Herbert".to_string();
    book.publication_year = 2025;
    assert_eq!(
        service.validate_book(&book),
        Err(DomainError::InvalidInput("Invalid publication year".to_string()))
    );
    book.publication_year = 999;
    assert_eq!(
        service.validate_book(&book),
        Err(DomainError::InvalidInput("Invalid publication year".to_string()))
    );
    book.publication_year = 1000;
    book.page_count = 0;
    assert_eq!(
        service.validate_book(&book),
        Err(DomainError::InvalidInput("Page count must be positive".to_string()))
    );
}

#[test]
fn user_rates_a_book_once() {
    let service = BookService::new();
    assert!(service.can_user_rate_book(None));
    let existing = BookRating {
        id: 1,
        book_id: 2,
        user_id: 3,
        rating: units(4.0),
        review: None,
        created_at: 0,
    };
    assert!(!service.can_user_rate_book(Some(existing)));
}

#[test]
fn reason_names_declared_genres() {
    let book = sample_book();
    let declared = vec!["Adventure".to_string(), "Fiction".to_string()];
    let text = BookService::generate_recommendation_reason(&book, &declared, 876_543);
    assert_eq!(text, "Recommended because you like Fiction, Adventure books (confidence: 87.7%)");
}

#[test]
fn reason_for_praised_book() {
    let mut book = sample_book();
    book.average_rating = units(4.2);
    let text = BookService::generate_recommendation_reason(&book, &[], 50_000);
    assert_eq!(text, "Highly rated book (4.2\u{2605}) that might interest you (confidence: 5.0%)");
}

#[test]
fn reason_from_reading_patterns() {
    let mut book = sample_book();
    book.average_rating = units(4.0);
    let text = BookService::generate_recommendation_reason(&book, &["Poetry".to_string()], 1_000_000);
    assert_eq!(text, "Discovered based on your reading patterns (confidence: 100.0%)");
}
