use book_recommendation::access::{bearer_token, is_public_path};
use book_recommendation::auth_service::AuthService;
use book_recommendation::cloudinary::CloudinaryService;
use book_recommendation::dtos::{
    BookRatingRequest, CreateBookRequest, GetRecommendationsRequest, RegisterUserRequest,
    UpdatePreferencesRequest,
};
use book_recommendation::entities::{Recommendation, User};
use book_recommendation::recommendation_service::RecommendationService;
use book_recommendation::errors::DomainError;

#[test]
fn password_hash_round_trip() {
    let auth = AuthService::new("SECRET-REDACTED".to_string(), 24);
    let hash = auth.hash_password("correct horse").unwrap();
    assert_eq!(hash.len(), 60);
    assert!(hash.starts_with("$2b$12$"));
    assert_ne!(hash, "correct horse");
    assert_eq!(auth.verify_password("correct horse", &hash), Ok(true));
    assert_eq!(auth.verify_password("wrong horse", &hash), Ok(false));
    assert_eq!(auth.verify_password("correct horse", "not a hash"), Err(DomainError::InvalidCredentials));
}

#[test]
fn token_settings_are_kept() {
    let auth = AuthService::new("SECRET-REDACTED".to_string(), 24);
    assert_eq!(auth.secret(), "SECRET-REDACTED");
    assert_eq!(auth.expiration_hours(), 24);
}

#[test]
fn public_paths() {
    assert!(is_public_path("/api/auth/login"));
    assert!(is_public_path("/swagger-ui/index.html"));
    assert!(is_public_path("/api-docs/openapi.json"));
    assert!(is_public_path("/health"));
    assert!(!is_public_path("/healthz"));
    assert!(!is_public_path("/api/books"));
    assert!(!is_public_path("/api/auth"));
}

#[test]
fn bearer_tokens() {
    assert_eq!(bearer_token("Bearer abc.def"), Some("abc.def"));
    assert_eq!(bearer_token("Bearer "), Some(""));
    assert_eq!(bearer_token("Basic abc"), None);
    assert_eq!(bearer_token("bearer abc"), None);
}

#[test]
fn cloudinary_request_parts() {
    let c = CloudinaryService::new(
        "demo".to_string(),
        "key".to_string(),
        "secret".to_string(),
        "preset".to_string(),
    );
    assert_eq!(c.upload_url(), "https://api.cloudinary.com/v1_1/demo/image/upload");
    assert_eq!(c.authorization_header().as_deref(), Some("Basic a2V5OnNlY3JldA=="));
    assert_eq!(c.preset(), "preset");
}

#[test]
fn user_profile_keeps_public_fields() {
    let mut u = User::new(
        "a@b.org".to_string(),
        "reader".to_string(),
        "hash".to_string(),
        "Ada".to_string(),
        "Reader".to_string(),
    );
    u.preferences = vec!["Fiction".to_string()];
    let p = u.to_profile();
    assert_eq!(p.id, u.id);
    assert_eq!(p.email, "a@b.org");
    assert_eq!(p.username, "reader");
    assert_eq!(p.preferences, vec!["Fiction".to_string()]);
    assert!(u.is_active);
}

#[test]
fn registration_rules() {
    let good = RegisterUserRequest {
        email: "reader@example.com".to_string(),
        username: "reader".to_string(),
        password: "long enough".to_string(),
        first_name: "Ada".to_string(),
        last_name: "Reader".to_string(),
    };
    assert_eq!(good.validate(), Ok(()));
    let bad = RegisterUserRequest {
        email: "not-an-address".to_string(),
        username: "ab".to_string(),
        password: "short".to_string(),
        first_name: String::new(),
        last_name: "Reader".to_string(),
    };
    assert_eq!(
        bad.validate(),
        Err(vec![
            "email".to_string(),
            "username".to_string(),
            "password".to_string(),
            "first_name".to_string()
        ])
    );
}

#[test]
fn new_book_rules() {
    let mut req = CreateBookRequest {
        title: "Dune".to_string(),
        author: "Frank Herbert".to_string(),
        isbn: None,
        description: "A desert planet.".to_string(),
        genre: vec!["Fiction".to_string()],
        tags: vec![],
        publication_year: 1965,
        publisher: "Chilton".to_string(),
        language: "English".to_string(),
        page_count: 412,
    };
    assert_eq!(req.validate(), Ok(()));
    req.description = "Short".to_string();
    req.genre = vec![];
    req.page_count = 10_001;
    assert_eq!(
        req.validate(),
        Err(vec!["description".to_string(), "genre".to_string(), "page_count".to_string()])
    );
}

#[test]
fn rating_and_request_rules() {
    assert_eq!(BookRatingRequest { rating: 5_000_000, review: None }.validate(), Ok(()));
    assert_eq!(
        BookRatingRequest { rating: 500_000, review: Some("x".repeat(1001)) }.validate(),
        Err(vec!["rating".to_string(), "review".to_string()])
    );
    assert_eq!(GetRecommendationsRequest { limit: None, include_reasons: None }.validate(), Ok(()));
    assert_eq!(
        GetRecommendationsRequest { limit: Some(101), include_reasons: Some(true) }.validate(),
        Err(vec!["limit".to_string()])
    );
    assert_eq!(UpdatePreferencesRequest { preferences: vec!["Fiction".to_string()] }.validate(), Ok(()));
    assert_eq!(
        UpdatePreferencesRequest { preferences: vec![] }.validate(),
        Err(vec!["preferences".to_string()])
    );
}

#[test]
fn fresh_user_passes_the_nil_check() {
    let u = User::new(
        "a@b.org".to_string(),
        "reader".to_string(),
        "hash".to_string(),
        "Ada".to_string(),
        "Reader".to_string(),
    );
    assert_ne!(u.id, 0);
    assert_eq!((u.id >> 76) & 0xf, 4);
    let service = RecommendationService::new();
    assert_eq!(service.validate_recommendation_request(u.id, Some(3)), Ok(3));
}

#[test]
fn login_and_sign_up_decisions() {
    let auth = AuthService::new("SECRET-REDACTED".to_string(), 1);
    let hash = auth.hash_password("pass phrase").unwrap();
    let mut u = User::new(
        "a@b.org".to_string(),
        "reader".to_string(),
        hash,
        "Ada".to_string(),
        "Reader".to_string(),
    );
    assert_eq!(auth.check_credentials(Some(&u), "pass phrase"), Ok(()));
    assert_eq!(auth.check_credentials(Some(&u), "other"), Err(DomainError::InvalidCredentials));
    assert_eq!(auth.check_credentials(None, "pass phrase"), Err(DomainError::InvalidCredentials));
    u.is_active = false;
    assert_eq!(auth.check_credentials(Some(&u), "pass phrase"), Err(DomainError::InvalidCredentials));
    assert_eq!(auth.check_new_account(true, true), Err(DomainError::UserAlreadyExists));
    assert_eq!(auth.check_new_account(false, true), Err(DomainError::UsernameAlreadyTaken));
    assert_eq!(auth.check_new_account(false, false), Ok(()));
}

#[test]
fn recommendation_interactions() {
    let mut r = Recommendation::new(1, 2, 900_000, "reason".to_string(), "v1".to_string());
    assert!(!r.is_clicked && !r.is_purchased);
    r.mark_clicked();
    assert!(r.is_clicked && !r.is_purchased);
    r.mark_purchased();
    assert!(r.is_clicked && r.is_purchased);
    assert_eq!(r.score, 900_000);
}
