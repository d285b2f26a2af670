//! Rules about books: rating statistics, validation and reasons.
use vstd::prelude::*;

use crate::entities::{Book, BookRating};
use crate::errors::DomainError;
use crate::external::now_timestamp;
use crate::text::{
    blank,
    fixed_text,
    is_blank,
    joined,
    percent_tenths_text,
    push_fixed,
    push_joined,
    push_percent_tenths,
};

verus! {

/// The mean rating after one more rating `new_rating` of a book whose
/// `count` ratings average `average`, rounded to nearest (half up).
pub open spec fn new_average(average: int, count: int, new_rating: int) -> int {
    if count == 0 {
        new_rating
    } else {
        (2 * (average * count + new_rating) + (count + 1)) / (2 * (count + 1))
    }
}

/// The earliest and latest publication years a book may have.
pub const FIRST_YEAR: i32 = 1000;

pub const LAST_YEAR: i32 = 2024;

/// The message of the first rule `book` breaks, if any.
pub open spec fn book_problem(book: Book) -> Option<Seq<char>> {
    if is_blank(book.title@) {
        Some("Book title cannot be empty"@)
    } else if is_blank(book.author@) {
        Some("Book author cannot be empty"@)
    } else if book.publication_year < FIRST_YEAR || book.publication_year > LAST_YEAR {
        Some("Invalid publication year"@)
    } else if book.page_count <= 0 {
        Some("Page count must be positive"@)
    } else {
        None
    }
}

/// The average rating above which a book is praised for its quality.
pub const PRAISED_RATING: u32 = 4_000_000;

/// The labels of `genres` that the user declared, in the book's order.
pub open spec fn declared_genres(genres: Seq<String>, declared: Seq<String>) -> Seq<String> {
    genres.filter(|g: String| exists|j: int| 0 <= j < declared.len() && declared[j]@ == g@)
}

/// Why a book is suggested to a user who declared the genres `declared`.
pub open spec fn recommendation_reason(book: Book, declared: Seq<String>, score: nat) -> Seq<char> {
    let matching = declared_genres(book.genre@, declared);
    let confidence = percent_tenths_text(score);
    if matching.len() > 0 {
        "Recommended because you like "@ + joined(matching, ", "@) + " books (confidence: "@ + confidence
            + "%)"@
    } else if book.average_rating > PRAISED_RATING {
        "Highly rated book ("@ + fixed_text(book.average_rating as nat)
            + "\u{2605}) that might interest you (confidence: "@ + confidence + "%)"@
    } else {
        "Discovered based on your reading patterns (confidence: "@ + confidence + "%)"@
    }
}

fn is_declared(declared: &[String], genre: &String) -> (r: bool)
    ensures
        r == exists|j: int| 0 <= j < declared@.len() && declared@[j]@ == genre@,
{
    let n = declared.len();
    let mut j: usize = 0;
    while j < n
        invariant
            n == declared@.len(),
            j <= n,
            forall|k: int| 0 <= k < j ==> declared@[k]@ != genre@,
        decreases n - j,
    {
        if declared[j] == *genre {
            assert(declared@[j as int]@ == genre@);
            return true;
        }
        j = j + 1;
    }
    false
}

/// Rules about books. It holds no state.
pub struct BookService;

impl BookService {
    pub fn new() -> (r: Self) {
        BookService
    }

    /// The mean rating after one more rating, rounded to nearest: the new
    /// rating itself for a book without ratings.
    pub fn calculate_new_average_rating(current_average: u32, current_count: u32, new_rating: u32) -> (r:
        u32)
        ensures
            r as int == new_average(current_average as int, current_count as int, new_rating as int),
    {
        if current_count == 0 {
            return new_rating;
        }
        let count = current_count as u128;
        assert(current_average as int * count <= 0xffff_ffff * 0xffff_ffff) by (nonlinear_arith)
            requires
                current_average <= 0xffff_ffff,
                count <= 0xffff_ffff,
        ;
        let total = current_average as u128 * count + new_rating as u128;
        let top: u128 = if current_average > new_rating {
            current_average as u128
        } else {
            new_rating as u128
        };
        proof {
            assert(current_average as int * count <= top * count) by (nonlinear_arith)
                requires
                    current_average <= top,
                    count >= 0,
            ;
            assert(total <= top * (count + 1)) by (nonlinear_arith)
                requires
                    total == current_average as int * count + new_rating,
                    current_average as int * count <= top * count,
                    new_rating <= top,
            ;
            assert((2 * total + (count + 1)) / (2 * (count + 1)) <= top) by (nonlinear_arith)
                requires
                    total <= top * (count + 1),
                    count >= 1,
            ;
        }
        let r = (2 * total + (count + 1)) / (2 * (count + 1));
        r as u32
    }

    /// Record one more rating `new_rating` of `book`: its average and count
    /// of ratings are updated and it is marked as changed now.
    pub fn update_book_rating_stats(&self, book: &mut Book, new_rating: u32)
        requires
            old(book).ratings_count < u32::MAX,
        ensures
            final(book).average_rating as int == new_average(
                old(book).average_rating as int,
                old(book).ratings_count as int,
                new_rating as int,
            ),
            final(book).ratings_count == old(book).ratings_count + 1,
            final(book).id == old(book).id,
            final(book).title == old(book).title,
            final(book).author == old(book).author,
            final(book).isbn == old(book).isbn,
            final(book).description == old(book).description,
            final(book).genre == old(book).genre,
            final(book).tags == old(book).tags,
            final(book).publication_year == old(book).publication_year,
            final(book).publisher == old(book).publisher,
            final(book).language == old(book).language,
            final(book).page_count == old(book).page_count,
            final(book).cover_image_url == old(book).cover_image_url,
            final(book).created_at == old(book).created_at,
            final(book).created_by == old(book).created_by,
    {
        book.average_rating = Self::calculate_new_average_rating(
            book.average_rating,
            book.ratings_count,
            new_rating,
        );
        book.ratings_count = book.ratings_count + 1;
        book.updated_at = now_timestamp();
    }

    /// Check a book before it is saved: a title and an author that are not
    /// blank, a publication year from 1000 to 2024, and a positive page count.
    pub fn validate_book(&self, book: &Book) -> (r: Result<(), DomainError>)
        ensures
            match book_problem(*book) {
                None => r is Ok,
                Some(m) => r matches Err(DomainError::InvalidInput(e)) && e@ == m,
            },
    {
        if blank(book.title.as_str()) {
            return Err(DomainError::InvalidInput(String::from_str("Book title cannot be empty")));
        }
        if blank(book.author.as_str()) {
            return Err(DomainError::InvalidInput(String::from_str("Book author cannot be empty")));
        }
        if book.publication_year < FIRST_YEAR || book.publication_year > LAST_YEAR {
            return Err(DomainError::InvalidInput(String::from_str("Invalid publication year")));
        }
        if book.page_count <= 0 {
            return Err(DomainError::InvalidInput(String::from_str("Page count must be positive")));
        }
        Ok(())
    }

    /// A user may rate a book they have not rated before.
    pub fn can_user_rate_book(&self, existing_rating: Option<BookRating>) -> (r: bool)
        ensures
            r == existing_rating is None,
    {
        existing_rating.is_none()
    }

    /// Why `book` is suggested to a user who declared the genres
    /// `user_preferences`, with `score` as a percentage with one decimal.
    pub fn generate_recommendation_reason(book: &Book, user_preferences: &[String], score: u32) -> (r:
        String)
        ensures
            r@ == recommendation_reason(*book, user_preferences@, score as nat),
    {
        let ghost pred = |g: String| exists|j: int| 0 <= j < user_preferences@.len() && user_preferences@[j]@ == g@;
        let genres = &book.genre;
        let n = genres.len();
        let mut matching: Vec<String> = Vec::new();
        let mut i: usize = 0;
        assert(genres@.take(0) =~= Seq::<String>::empty());
        proof {
            reveal(Seq::filter);
        }
        while i < n
            invariant
                n == genres@.len(),
                i <= n,
                pred == (|g: String| exists|j: int| 0 <= j < user_preferences@.len() && user_preferences@[j]@ == g@),
                matching@ == genres@.take(i as int).filter(pred),
            decreases n - i,
        {
            let ghost prev = matching@;
            let keep = is_declared(user_preferences, &genres[i]);
            if keep {
                matching.push(genres[i].clone());
            }
            proof {
                let t = genres@.take(i + 1);
                assert(t.drop_last() =~= genres@.take(i as int));
                assert(t.last() == genres@[i as int]);
                assert(keep == pred(genres@[i as int]));
                reveal(Seq::filter);
            }
            i = i + 1;
        }
        assert(genres@.take(n as int) =~= genres@);
        let mut s = String::new();
        if matching.len() > 0 {
            s.append("Recommended because you like ");
            push_joined(&mut s, matching.as_slice(), ", ");
            s.append(" books (confidence: ");
            push_percent_tenths(&mut s, score);
            s.append("%)");
        } else if book.average_rating > PRAISED_RATING {
            s.append("Highly rated book (");
            push_fixed(&mut s, book.average_rating);
            s.append("\u{2605}) that might interest you (confidence: ");
            push_percent_tenths(&mut s, score);
            s.append("%)");
        } else {
            s.append("Discovered based on your reading patterns (confidence: ");
            push_percent_tenths(&mut s, score);
            s.append("%)");
        }
        assert(s@ =~= recommendation_reason(*book, user_preferences@, score as nat));
        s
    }
}

} // verus!
