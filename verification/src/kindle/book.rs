//! Extraction of book records from the library listing's HTML.

use vstd::prelude::*;

use crate::html::{
    first_attr_of, first_inner_html_of, select_first_attr, select_first_inner_html,
    select_outer_htmls, selections_of, HtmlError,
};
use crate::record::{Book, BookLibrary, BookView};
use crate::strutil::{split2, split2_first, split2_rest, trim_str, trimmed};

verus! {

/// What extracting one book from a listing fragment yields: the first
/// div's id is the identity; the first h2 holds "title" or
/// "title: subtitle"; the first p holds "By: author"; the first img's
/// src is the cover; the first input's value is the last-opened marker.
/// Title, subtitle and author are trimmed of surrounding whitespace.
pub open spec fn spec_book_from_html(h: Seq<char>) -> Result<BookView, HtmlError> {
    match first_attr_of(h, "div"@, "id"@) {
        None => Err(HtmlError::MissingAsin),
        Some(asin) => match first_inner_html_of(h, "h2"@) {
            None => Err(HtmlError::MissingTitle),
            Some(full_title) => {
                let title = trimmed(split2_first(full_title, ":"@));
                let subtitle = match split2_rest(full_title, ":"@) {
                    None => None,
                    Some(rest) => Some(trimmed(rest)),
                };
                match first_inner_html_of(h, "p"@) {
                    None => Err(HtmlError::MissingAuthor),
                    Some(author_full) => match split2_rest(author_full, ":"@) {
                        None => Err(HtmlError::MissingAuthor),
                        Some(author_rest) => {
                            let author = trimmed(author_rest);
                            match first_attr_of(h, "img"@, "src"@) {
                                None => Err(HtmlError::MissingImage),
                                Some(image_url) => match first_attr_of(h, "input"@, "value"@) {
                                    None => Err(HtmlError::MissingDate),
                                    Some(date) => Ok(
                                        BookView {
                                            asin,
                                            title,
                                            subtitle,
                                            author,
                                            image_url,
                                            last_opened_date: date,
                                        },
                                    ),
                                },
                            }
                        },
                    },
                }
            },
        },
    }
}

/// The books extracted from a sequence of listing fragments, in order;
/// the first fragment that fails decides the error.
pub open spec fn spec_books_from_fragments(sels: Seq<Seq<char>>) -> Result<
    Seq<BookView>,
    HtmlError,
>
    decreases sels.len(),
{
    if sels.len() == 0 {
        Ok(Seq::empty())
    } else {
        match spec_books_from_fragments(sels.drop_last()) {
            Err(e) => Err(e),
            Ok(bs) => match spec_book_from_html(sels.last()) {
                Err(e) => Err(e),
                Ok(b) => Ok(bs.push(b)),
            },
        }
    }
}

/// What extracting the whole library yields: each element matched by the
/// per-book selector becomes one book, in document order.
pub open spec fn spec_library_from_html(h: Seq<char>) -> Result<Seq<BookView>, HtmlError> {
    spec_books_from_fragments(selections_of(h, "div.kp-notebook-library-each-book"@))
}

impl Book {
    /// Extracts one book record from a listing fragment.
    pub fn from_html(html: &str) -> (r: Result<Book, HtmlError>)
        ensures
            match r {
                Ok(b) => spec_book_from_html(html@) == Ok::<BookView, HtmlError>(b@),
                Err(e) => spec_book_from_html(html@) == Err::<BookView, HtmlError>(e),
            },
    {
        let asin = match select_first_attr(html, "div", "id") {
            None => {
                return Err(HtmlError::MissingAsin);
            },
            Some(a) => a,
        };
        let full_title = match select_first_inner_html(html, "h2") {
            None => {
                return Err(HtmlError::MissingTitle);
            },
            Some(t) => t,
        };
        let (title_raw, subtitle_raw) = split2(full_title.as_str(), ":");
        let title = trim_str(title_raw.as_str());
        let subtitle = match subtitle_raw {
            None => None,
            Some(rest) => Some(trim_str(rest.as_str())),
        };
        let author_full = match select_first_inner_html(html, "p") {
            None => {
                return Err(HtmlError::MissingAuthor);
            },
            Some(a) => a,
        };
        let (_, author_rest) = split2(author_full.as_str(), ":");
        let author = match author_rest {
            None => {
                return Err(HtmlError::MissingAuthor);
            },
            Some(rest) => trim_str(rest.as_str()),
        };
        let image_url = match select_first_attr(html, "img", "src") {
            None => {
                return Err(HtmlError::MissingImage);
            },
            Some(u) => u,
        };
        let last_opened_date = match select_first_attr(html, "input", "value") {
            None => {
                return Err(HtmlError::MissingDate);
            },
            Some(d) => d,
        };
        Ok(Book { asin, title, subtitle, author, image_url, last_opened_date })
    }
}

impl BookLibrary {
    /// Extracts every book of the library listing, in document order.
    pub fn from_html(html: &str) -> (r: Result<BookLibrary, HtmlError>)
        ensures
            match r {
                Ok(lib) => spec_library_from_html(html@) == Ok::<Seq<BookView>, HtmlError>(lib@),
                Err(e) => spec_library_from_html(html@) == Err::<Seq<BookView>, HtmlError>(e),
            },
    {
        let fragments = select_outer_htmls(html, "div.kp-notebook-library-each-book");
        let ghost sels = selections_of(html@, "div.kp-notebook-library-each-book"@);
        let n = fragments.len();
        let mut books: Vec<Book> = Vec::new();
        let mut i: usize = 0;
        proof {
            assert(sels.take(0) =~= Seq::<Seq<char>>::empty());
            assert(Seq::new(books@.len(), |j: int| books@[j]@) =~= Seq::<BookView>::empty());
        }
        while i < n
            invariant
                0 <= i <= n,
                n == fragments@.len(),
                sels == fragments.deep_view(),
                sels == selections_of(html@, "div.kp-notebook-library-each-book"@),
                sels.len() == n,
                spec_books_from_fragments(sels.take(i as int)) == Ok::<Seq<BookView>, HtmlError>(
                    Seq::new(books@.len(), |j: int| books@[j]@),
                ),
            decreases n - i,
        {
            proof {
                assert(sels.take(i + 1 as int).drop_last() =~= sels.take(i as int));
                assert(sels.take(i + 1 as int).last() == sels[i as int]);
                assert(fragments@[i as int]@ == sels[i as int]);
            }
            match Book::from_html(fragments[i].as_str()) {
                Err(e) => {
                    proof {
                        assert(spec_books_from_fragments(sels.take(i + 1 as int)) == Err::<
                            Seq<BookView>,
                            HtmlError,
                        >(e));
                        lemma_books_error_persists(sels, i + 1 as int);
                        assert(sels.take(n as int) =~= sels);
                    }
                    return Err(e);
                },
                Ok(b) => {
                    let ghost prev_books = books@;
                    let ghost bv = b@;
                    books.push(b);
                    proof {
                        assert(books@ == prev_books.push(books@.last()));
                        assert(Seq::new(books@.len(), |j: int| books@[j]@) =~= Seq::new(
                            prev_books.len(),
                            |j: int| prev_books[j]@,
                        ).push(bv));
                    }
                },
            }
            i += 1;
        }
        proof {
            assert(sels.take(n as int) =~= sels);
        }
        let lib = BookLibrary { books };
        proof {
            assert(lib@ =~= Seq::new(lib.books@.len(), |j: int| lib.books@[j]@));
        }
        Ok(lib)
    }
}

/// Once a prefix of the fragments fails, the whole sequence fails with
/// the same error.
proof fn lemma_books_error_persists(sels: Seq<Seq<char>>, i: int)
    requires
        0 <= i <= sels.len(),
        spec_books_from_fragments(sels.take(i)) is Err,
    ensures
        spec_books_from_fragments(sels.take(sels.len() as int)) == spec_books_from_fragments(
            sels.take(i),
        ),
    decreases sels.len() - i,
{
    if i < sels.len() {
        assert(sels.take(i + 1).drop_last() =~= sels.take(i));
        lemma_books_error_persists(sels, i + 1);
    }
}

} // verus!
