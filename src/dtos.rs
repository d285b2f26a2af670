//! Requests and responses exchanged with clients, and the rules that a
//! request must meet before it is acted on.
use vstd::prelude::*;

verus! {

/// Whether `validator` accepts `s` as an e-mail address.
pub uninterp spec fn email_accepted(s: Seq<char>) -> bool;

/// Relies on `validator::validate_email`: whether `s` has the form of an
/// e-mail address (HTML5 rules on the user part, a domain name or an IP
/// literal after the last `@`). The answer depends on `s` alone; an empty
/// string or one without `@` is refused.
#[verifier::external_body]
fn email_ok(s: &str) -> (r: bool)
    ensures
        r == email_accepted(s@),
        s@.len() == 0 ==> !r,
{
    validator::validate_email(s)
}

/// No entry where `ok` holds, else the field's name.
pub open spec fn flag(ok: bool, field: Seq<char>) -> Seq<Seq<char>> {
    if ok {
        Seq::empty()
    } else {
        seq![field]
    }
}

/// Whether a text's length in characters lies in `[min, max]`.
pub open spec fn length_within(s: Seq<char>, min: int, max: int) -> bool {
    min <= s.len() <= max
}

/// The names of the fields, in order.
pub open spec fn names(fields: Seq<String>) -> Seq<Seq<char>> {
    fields.map_values(|f: String| f@)
}

/// Add the field's name to `fields` unless `ok` holds.
fn note(fields: &mut Vec<String>, ok: bool, field: &str)
    ensures
        names(final(fields)@) == names(old(fields)@) + flag(ok, field@),
{
    if !ok {
        fields.push(String::from_str(field));
    }
    assert(names(fields@) =~= names(old(fields)@) + flag(ok, field@));
}

/// The outcome of a check that found the fields `fields` wrong.
fn outcome(fields: Vec<String>) -> (r: Result<(), Vec<String>>)
    ensures
        fields@.len() == 0 ==> r is Ok,
        fields@.len() > 0 ==> (r matches Err(v) && v@ == fields@),
{
    if fields.len() == 0 {
        Ok(())
    } else {
        Err(fields)
    }
}

fn char_count_within(s: &String, min: usize, max: usize) -> (r: bool)
    ensures
        r == length_within(s@, min as int, max as int),
{
    let n = s.as_str().unicode_len();
    min <= n && n <= max
}

pub struct RegisterUserRequest {
    pub email: String,
    pub username: String,
    pub password: String,
    pub first_name: String,
    pub last_name: String,
}

/// The fields of a registration that break its rules.
pub open spec fn registration_problems(r: RegisterUserRequest) -> Seq<Seq<char>> {
    flag(email_accepted(r.email@), "email"@) + flag(length_within(r.username@, 3, 50), "username"@)
        + flag(r.password@.len() >= 8, "password"@) + flag(
        length_within(r.first_name@, 1, 100),
        "first_name"@,
    ) + flag(length_within(r.last_name@, 1, 100), "last_name"@)
}

impl RegisterUserRequest {
    /// Check a registration: an e-mail address, a user name of 3 to 50
    /// characters, a password of at least 8, and first and last names of 1 to
    /// 100. The error names the fields that break these rules, in order.
    pub fn validate(&self) -> (r: Result<(), Vec<String>>)
        ensures
            registration_problems(*self).len() == 0 ==> r is Ok,
            registration_problems(*self).len() > 0 ==> (r matches Err(v) && names(v@)
                == registration_problems(*self)),
    {
        let mut fields: Vec<String> = Vec::new();
        assert(names(fields@) =~= Seq::<Seq<char>>::empty());
        note(&mut fields, email_ok(self.email.as_str()), "email");
        note(&mut fields, char_count_within(&self.username, 3, 50), "username");
        note(&mut fields, self.password.as_str().unicode_len() >= 8, "password");
        note(&mut fields, char_count_within(&self.first_name, 1, 100), "first_name");
        note(&mut fields, char_count_within(&self.last_name, 1, 100), "last_name");
        assert(names(fields@) =~= registration_problems(*self));
        outcome(fields)
    }
}

pub struct LoginRequest {
    pub email: String,
    pub password: String,
}

pub struct UserDto {
    pub id: String,
    pub email: String,
    pub username: String,
    pub first_name: String,
    pub last_name: String,
}

pub struct AuthResponse {
    pub token: String,
    pub user: UserDto,
}

pub struct CreateBookRequest {
    pub title: String,
    pub author: String,
    pub isbn: Option<String>,
    pub description: String,
    pub genre: Vec<String>,
    pub tags: Vec<String>,
    pub publication_year: i32,
    pub publisher: String,
    pub language: String,
    pub page_count: i32,
}

/// The fields of a new book that break its rules.
pub open spec fn new_book_problems(r: CreateBookRequest) -> Seq<Seq<char>> {
    flag(length_within(r.title@, 1, 500), "title"@) + flag(length_within(r.author@, 1, 200), "author"@)
        + flag(length_within(r.description@, 10, 5000), "description"@) + flag(
        r.genre@.len() >= 1,
        "genre"@,
    ) + flag(1000 <= r.publication_year <= 2024, "publication_year"@) + flag(
        length_within(r.publisher@, 1, 200),
        "publisher"@,
    ) + flag(length_within(r.language@, 1, 50), "language"@) + flag(
        1 <= r.page_count <= 10000,
        "page_count"@,
    )
}

impl CreateBookRequest {
    /// Check a new book: a title of 1 to 500 characters, an author of 1 to
    /// 200, a description of 10 to 5000, at least one genre, a publication
    /// year from 1000 to 2024, a publisher of 1 to 200, a language of 1 to 50
    /// and 1 to 10000 pages. The error names the fields that break these
    /// rules, in order.
    pub fn validate(&self) -> (r: Result<(), Vec<String>>)
        ensures
            new_book_problems(*self).len() == 0 ==> r is Ok,
            new_book_problems(*self).len() > 0 ==> (r matches Err(v) && names(v@)
                == new_book_problems(*self)),
    {
        let mut fields: Vec<String> = Vec::new();
        assert(names(fields@) =~= Seq::<Seq<char>>::empty());
        note(&mut fields, char_count_within(&self.title, 1, 500), "title");
        note(&mut fields, char_count_within(&self.author, 1, 200), "author");
        note(&mut fields, char_count_within(&self.description, 10, 5000), "description");
        note(&mut fields, self.genre.len() >= 1, "genre");
        note(
            &mut fields,
            1000 <= self.publication_year && self.publication_year <= 2024,
            "publication_year",
        );
        note(&mut fields, char_count_within(&self.publisher, 1, 200), "publisher");
        note(&mut fields, char_count_within(&self.language, 1, 50), "language");
        note(&mut fields, 1 <= self.page_count && self.page_count <= 10000, "page_count");
        assert(names(fields@) =~= new_book_problems(*self));
        outcome(fields)
    }
}

/// A rating of a book, 1.0 to 5.0, with an optional review.
pub struct BookRatingRequest {
    pub rating: u32,
    pub review: Option<String>,
}

/// The fields of a rating that break its rules.
pub open spec fn rating_problems(r: BookRatingRequest) -> Seq<Seq<char>> {
    flag(1_000_000 <= r.rating <= 5_000_000, "rating"@) + flag(
        r.review matches Some(t) ==> t@.len() <= 1000,
        "review"@,
    )
}

impl BookRatingRequest {
    /// Check a rating: from 1.0 to 5.0, with a review of at most 1000
    /// characters. The error names the fields that break these rules.
    pub fn validate(&self) -> (r: Result<(), Vec<String>>)
        ensures
            rating_problems(*self).len() == 0 ==> r is Ok,
            rating_problems(*self).len() > 0 ==> (r matches Err(v) && names(v@) == rating_problems(*self)),
    {
        let mut fields: Vec<String> = Vec::new();
        assert(names(fields@) =~= Seq::<Seq<char>>::empty());
        note(&mut fields, 1_000_000 <= self.rating && self.rating <= 5_000_000, "rating");
        let review_ok = match &self.review {
            Some(t) => char_count_within(t, 0, 1000),
            None => true,
        };
        note(&mut fields, review_ok, "review");
        assert(names(fields@) =~= rating_problems(*self));
        outcome(fields)
    }
}

pub struct BookSearchQuery {
    pub title: Option<String>,
    pub author: Option<String>,
    pub genre: Option<String>,
    pub limit: Option<usize>,
    pub offset: Option<usize>,
}

pub struct GetRecommendationsRequest {
    pub limit: Option<usize>,
    pub include_reasons: Option<bool>,
}

impl GetRecommendationsRequest {
    /// Check a request: a limit, where given, from 1 to 100. The error names
    /// the field that breaks the rule.
    pub fn validate(&self) -> (r: Result<(), Vec<String>>)
        ensures
            ({
                let problems = flag(self.limit matches Some(l) ==> 1 <= l <= 100, "limit"@);
                &&& problems.len() == 0 ==> r is Ok
                &&& problems.len() > 0 ==> (r matches Err(v) && names(v@) == problems)
            }),
    {
        let mut fields: Vec<String> = Vec::new();
        assert(names(fields@) =~= Seq::<Seq<char>>::empty());
        let ok = match self.limit {
            Some(l) => 1 <= l && l <= 100,
            None => true,
        };
        note(&mut fields, ok, "limit");
        outcome(fields)
    }
}

pub struct UpdatePreferencesRequest {
    pub preferences: Vec<String>,
}

impl UpdatePreferencesRequest {
    /// Check a request: 1 to 20 declared genres. The error names the field
    /// that breaks the rule.
    pub fn validate(&self) -> (r: Result<(), Vec<String>>)
        ensures
            ({
                let problems = flag(1 <= self.preferences@.len() <= 20, "preferences"@);
                &&& problems.len() == 0 ==> r is Ok
                &&& problems.len() > 0 ==> (r matches Err(v) && names(v@) == problems)
            }),
    {
        let mut fields: Vec<String> = Vec::new();
        assert(names(fields@) =~= Seq::<Seq<char>>::empty());
        let n = self.preferences.len();
        note(&mut fields, 1 <= n && n <= 20, "preferences");
        outcome(fields)
    }
}

/// What an outside catalog knows of a book.
pub struct ExternalBookData {
    pub title: String,
    pub author: String,
    pub description: String,
    pub publisher: String,
    pub publication_year: i32,
    pub page_count: i32,
    pub genre: Vec<String>,
    pub cover_image_url: Option<String>,
}

/// The ways a user interacts with a book.
#[derive(Debug, Clone, Copy, PartialEq, Eq, Structural)]
pub enum InteractionType {
    View,
    Rate,
    Purchase,
    AddToWishlist,
    Share,
}

} // verus!
