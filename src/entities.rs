//! The catalog's and the users' records, as plain values.
//!
//! Identifiers are 128-bit UUIDs held as integers (zero is the nil UUID),
//! times are whole seconds since the Unix epoch, and ratings are fixed-point
//! numbers (see [`crate::units`]).
use vstd::prelude::*;

use crate::external::{new_identifier, now_timestamp};

verus! {

/// A book of the catalog.
pub struct Book {
    pub id: u128,
    pub title: String,
    pub author: String,
    pub isbn: Option<String>,
    pub description: String,
    pub genre: Vec<String>,
    pub tags: Vec<String>,
    pub publication_year: i32,
    pub publisher: String,
    pub language: String,
    pub page_count: i32,
    pub cover_image_url: Option<String>,
    /// Mean rating, 1.0 to 5.0 once rated, else 0.
    pub average_rating: u32,
    pub ratings_count: u32,
    pub created_at: i64,
    pub updated_at: i64,
    /// The user who added the book.
    pub created_by: u128,
}

impl Book {
    /// A new, unrated book with a fresh identifier, created now.
    pub fn new(
        title: String,
        author: String,
        description: String,
        genre: Vec<String>,
        publication_year: i32,
        publisher: String,
        language: String,
        page_count: i32,
        created_by: u128,
    ) -> (r: Self)
        ensures
            r.id != 0,
            r.title == title,
            r.author == author,
            r.description == description,
            r.genre == genre,
            r.publication_year == publication_year,
            r.publisher == publisher,
            r.language == language,
            r.page_count == page_count,
            r.created_by == created_by,
            r.isbn is None,
            r.tags@.len() == 0,
            r.cover_image_url is None,
            r.average_rating == 0,
            r.ratings_count == 0,
            r.created_at == r.updated_at,
    {
        let now = now_timestamp();
        Book {
            id: new_identifier(),
            title,
            author,
            isbn: None,
            description,
            genre,
            tags: Vec::new(),
            publication_year,
            publisher,
            language,
            page_count,
            cover_image_url: None,
            average_rating: 0,
            ratings_count: 0,
            created_at: now,
            updated_at: now,
            created_by,
        }
    }
}

/// One user's rating of one book.
pub struct BookRating {
    pub id: u128,
    pub book_id: u128,
    pub user_id: u128,
    /// 1.0 to 5.0.
    pub rating: u32,
    pub review: Option<String>,
    pub created_at: i64,
}

/// A registered user.
pub struct User {
    pub id: u128,
    pub email: String,
    pub username: String,
    pub password_hash: String,
    pub first_name: String,
    pub last_name: String,
    /// The genres the user declared an interest in.
    pub preferences: Vec<String>,
    pub created_at: i64,
    pub updated_at: i64,
    pub is_active: bool,
}

/// What a user may see of their own record.
pub struct UserProfile {
    pub id: u128,
    pub email: String,
    pub username: String,
    pub first_name: String,
    pub last_name: String,
    pub preferences: Vec<String>,
    pub created_at: i64,
}

impl User {
    /// A new active user with a fresh identifier and no declared genres.
    pub fn new(
        email: String,
        username: String,
        password_hash: String,
        first_name: String,
        last_name: String,
    ) -> (r: Self)
        ensures
            r.id != 0,
            r.email == email,
            r.username == username,
            r.password_hash == password_hash,
            r.first_name == first_name,
            r.last_name == last_name,
            r.preferences@.len() == 0,
            r.created_at == r.updated_at,
            r.is_active,
    {
        let now = now_timestamp();
        User {
            id: new_identifier(),
            email,
            username,
            password_hash,
            first_name,
            last_name,
            preferences: Vec::new(),
            created_at: now,
            updated_at: now,
            is_active: true,
        }
    }

    /// The user's record without the password hash and activity fields.
    pub fn to_profile(&self) -> (r: UserProfile)
        ensures
            r.id == self.id,
            r.email@ == self.email@,
            r.username@ == self.username@,
            r.first_name@ == self.first_name@,
            r.last_name@ == self.last_name@,
            r.preferences@ == self.preferences@,
            r.created_at == self.created_at,
    {
        UserProfile {
            id: self.id,
            email: self.email.clone(),
            username: self.username.clone(),
            first_name: self.first_name.clone(),
            last_name: self.last_name.clone(),
            preferences: self.preferences.clone(),
            created_at: self.created_at,
        }
    }
}

/// A recommendation that was shown to a user, with what the user did with it.
pub struct Recommendation {
    pub id: u128,
    pub user_id: u128,
    pub book_id: u128,
    /// Confidence in `[0, SCALE]`.
    pub score: u32,
    /// Why the book was recommended.
    pub reason: String,
    /// Which version of the ranking produced it.
    pub algorithm_version: String,
    pub created_at: i64,
    pub is_clicked: bool,
    pub is_purchased: bool,
}

impl Recommendation {
    /// A new recommendation with a fresh identifier, made now, not yet
    /// clicked or bought.
    pub fn new(user_id: u128, book_id: u128, score: u32, reason: String, algorithm_version: String) -> (r:
        Self)
        ensures
            r.id != 0,
            r.user_id == user_id,
            r.book_id == book_id,
            r.score == score,
            r.reason == reason,
            r.algorithm_version == algorithm_version,
            !r.is_clicked,
            !r.is_purchased,
    {
        Recommendation {
            id: new_identifier(),
            user_id,
            book_id,
            score,
            reason,
            algorithm_version,
            created_at: now_timestamp(),
            is_clicked: false,
            is_purchased: false,
        }
    }

    /// Record that the user opened the recommended book.
    pub fn mark_clicked(&mut self)
        ensures
            final(self).is_clicked,
            final(self).is_purchased == old(self).is_purchased,
            final(self).id == old(self).id,
            final(self).user_id == old(self).user_id,
            final(self).book_id == old(self).book_id,
            final(self).score == old(self).score,
            final(self).reason == old(self).reason,
            final(self).algorithm_version == old(self).algorithm_version,
            final(self).created_at == old(self).created_at,
    {
        self.is_clicked = true;
    }

    /// Record that the user bought the recommended book.
    pub fn mark_purchased(&mut self)
        ensures
            final(self).is_purchased,
            final(self).is_clicked == old(self).is_clicked,
            final(self).id == old(self).id,
            final(self).user_id == old(self).user_id,
            final(self).book_id == old(self).book_id,
            final(self).score == old(self).score,
            final(self).reason == old(self).reason,
            final(self).algorithm_version == old(self).algorithm_version,
            final(self).created_at == old(self).created_at,
    {
        self.is_purchased = true;
    }
}

/// A stored affinity of one user for one genre.
pub struct UserPreference {
    pub id: u128,
    pub user_id: u128,
    pub genre: String,
    /// Affinity in `[0, SCALE]`.
    pub preference_score: u32,
    pub last_updated: i64,
}

/// A stretch of time a user spent reading a book.
pub struct ReadingSession {
    pub id: u128,
    pub user_id: u128,
    pub book_id: u128,
    pub start_time: i64,
    pub end_time: Option<i64>,
    pub pages_read: i32,
    pub session_duration_minutes: Option<i32>,
}

} // verus!
