//! The observed record: one library item's identity and comparable metadata.

use vstd::prelude::*;

verus! {

/// Snapshot of one book as observed in the current listing.
///
/// The `asin` is the stable identity of the item: two books are the same
/// entity iff their `asin` matches.  They are equivalent iff every field
/// matches, which is what `==` compares.
#[derive(Debug)]
pub struct Book {
    pub asin: String,
    pub title: String,
    pub subtitle: Option<String>,
    pub author: String,
    pub image_url: String,
    pub last_opened_date: String,
}

/// Mathematical model of a `Book`: every field as a sequence of characters.
pub struct BookView {
    pub asin: Seq<char>,
    pub title: Seq<char>,
    pub subtitle: Option<Seq<char>>,
    pub author: Seq<char>,
    pub image_url: Seq<char>,
    pub last_opened_date: Seq<char>,
}

impl View for Book {
    type V = BookView;

    open spec fn view(&self) -> BookView {
        BookView {
            asin: self.asin@,
            title: self.title@,
            subtitle: match self.subtitle {
                Some(s) => Some(s@),
                None => None,
            },
            author: self.author@,
            image_url: self.image_url@,
            last_opened_date: self.last_opened_date@,
        }
    }
}

/// Equality of two optional strings, at the level of their views.
pub open spec fn opt_string_eq_spec(a: Option<String>, b: Option<String>) -> bool {
    match (a, b) {
        (Some(x), Some(y)) => x@ == y@,
        (None, None) => true,
        _ => false,
    }
}

fn opt_string_eq(a: &Option<String>, b: &Option<String>) -> (r: bool)
    ensures
        r == opt_string_eq_spec(*a, *b),
{
    match (a, b) {
        (Some(x), Some(y)) => *x == *y,
        (None, None) => true,
        _ => false,
    }
}

impl Clone for Book {
    fn clone(&self) -> (r: Self)
        ensures
            r == *self,
    {
        Book {
            asin: self.asin.clone(),
            title: self.title.clone(),
            subtitle: match &self.subtitle {
                Some(s) => Some(s.clone()),
                None => None,
            },
            author: self.author.clone(),
            image_url: self.image_url.clone(),
            last_opened_date: self.last_opened_date.clone(),
        }
    }
}

impl PartialEq for Book {
    fn eq(&self, other: &Book) -> (r: bool)
    {
        self.asin == other.asin && self.title == other.title
            && opt_string_eq(&self.subtitle, &other.subtitle)
            && self.author == other.author && self.image_url == other.image_url
            && self.last_opened_date == other.last_opened_date
    }
}

impl Eq for Book {}

impl vstd::std_specs::cmp::PartialEqSpecImpl for Book {
    open spec fn obeys_eq_spec() -> bool {
        true
    }

    open spec fn eq_spec(&self, other: &Book) -> bool {
        self@ == other@
    }
}

/// The observed listing: the ordered sequence of books found in the library.
#[derive(Debug)]
pub struct BookLibrary {
    pub books: Vec<Book>,
}

impl View for BookLibrary {
    type V = Seq<BookView>;

    open spec fn view(&self) -> Seq<BookView> {
        Seq::new(self.books@.len(), |i: int| self.books@[i]@)
    }
}

impl PartialEq for BookLibrary {
    fn eq(&self, other: &BookLibrary) -> (r: bool)
    {
        let n = self.books.len();
        if n != other.books.len() {
            proof {
                assert(self@ != other@) by {
                    assert(self@.len() != other@.len());
                }
            }
            return false;
        }
        let mut i: usize = 0;
        while i < n
            invariant
                n == self.books@.len(),
                n == other.books@.len(),
                0 <= i <= n,
                forall|j: int| 0 <= j < i ==> self@[j] == other@[j],
            decreases n - i,
        {
            if !(self.books[i] == other.books[i]) {
                proof {
                    assert(self@[i as int] != other@[i as int]);
                }
                return false;
            }
            i += 1;
        }
        proof {
            assert(self@ =~= other@);
        }
        true
    }
}

impl Eq for BookLibrary {}

impl vstd::std_specs::cmp::PartialEqSpecImpl for BookLibrary {
    open spec fn obeys_eq_spec() -> bool {
        true
    }

    open spec fn eq_spec(&self, other: &BookLibrary) -> bool {
        self@ == other@
    }
}

} // verus!
