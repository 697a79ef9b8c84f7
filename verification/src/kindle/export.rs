//! Rendering of an exported book: the markdown document built from a book
//! record and its annotations.

use vstd::prelude::*;

use crate::kindle::annotation::{Annotation, AnnotationList, AnnotationView};
use crate::record::{Book, BookView};
use crate::strutil::{dec_str, u32_to_string};

verus! {

/// What a Kindle export run needs: where to write, whether to drive the
/// browser headless, and the credentials.
pub struct ExportOpts {
    pub target: String,
    pub headless: bool,
    pub email: String,
    pub password: String,
}

/// The markdown header block: the book's fields between two "---" fences,
/// the subtitle line only when there is one.
pub open spec fn spec_book_header_md(b: BookView) -> Seq<char> {
    "---\n"@ + "asin: "@ + b.asin + "\n"@ + "title: "@ + b.title + "\n"@ + (match b.subtitle {
        Some(st) => "subtitle: "@ + st + "\n"@,
        None => Seq::<char>::empty(),
    }) + "author: "@ + b.author + "\n"@ + "image_url: "@ + b.image_url + "\n"@
        + "last_opened_date: "@ + b.last_opened_date + "\n"@ + "\n"@ + "---\n"@
}

/// The markdown block of one annotation: highlight, note and page when
/// present, then the in-app link built from the book's identity and the
/// annotation's location.
pub open spec fn spec_annotation_md(asin: Seq<char>, a: AnnotationView) -> Seq<char> {
    "\n"@ + "---\n"@ + (match (a.highlight, a.highlight_color) {
        (Some(hl), Some(c)) => "**"@ + c + " highlight:**\n"@ + "> "@ + hl + "\n"@ + "\n"@,
        _ => Seq::<char>::empty(),
    }) + (match a.note {
        Some(nt) => "**Note:**\n"@ + nt + "\n"@ + "\n"@,
        None => Seq::<char>::empty(),
    }) + (match a.page {
        Some(p) => "**Page:**\n"@ + dec_str(p as nat) + "\n"@ + "\n"@,
        None => Seq::<char>::empty(),
    }) + "**Link:**\n"@ + "[Kindle App](kindle://book?action=open&asin="@ + asin + "&location="@
        + dec_str(a.location as nat) + ")\n"@ + "\n"@ + "---\n"@
}

/// The markdown blocks of all annotations, in order.
pub open spec fn spec_annotations_md(asin: Seq<char>, s: Seq<AnnotationView>) -> Seq<char>
    decreases s.len(),
{
    if s.len() == 0 {
        Seq::empty()
    } else {
        spec_annotations_md(asin, s.drop_last()) + spec_annotation_md(asin, s.last())
    }
}

/// The whole exported document: header block, then one block per
/// annotation.
pub open spec fn spec_export_markdown(b: BookView, anns: Seq<AnnotationView>) -> Seq<char> {
    spec_book_header_md(b) + spec_annotations_md(b.asin, anns)
}

/// Renders the markdown document for one book and its annotations.
///
/// An annotation that carries a highlight must also carry its color, as
/// extraction guarantees.
pub fn export_data_to_markdown(book: &Book, annotation_list: &AnnotationList) -> (r: String)
    requires
        forall|i: int|
            0 <= i < annotation_list@.len() ==> ((#[trigger] annotation_list@[i]).highlight is Some
                ==> annotation_list@[i].highlight_color is Some),
    ensures
        r@ == spec_export_markdown(book@, annotation_list@),
{
    let mut r = String::new();
    r.append("---\n");
    r.append("asin: ");
    r.append(book.asin.as_str());
    r.append("\n");
    r.append("title: ");
    r.append(book.title.as_str());
    r.append("\n");
    match &book.subtitle {
        Some(st) => {
            r.append("subtitle: ");
            r.append(st.as_str());
            r.append("\n");
        },
        None => {},
    }
    r.append("author: ");
    r.append(book.author.as_str());
    r.append("\n");
    r.append("image_url: ");
    r.append(book.image_url.as_str());
    r.append("\n");
    r.append("last_opened_date: ");
    r.append(book.last_opened_date.as_str());
    r.append("\n");
    r.append("\n");
    r.append("---\n");
    proof {
        assert(r@ =~= spec_book_header_md(book@));
    }
    let n = annotation_list.annotations.len();
    let mut i: usize = 0;
    while i < n
        invariant
            0 <= i <= n,
            n == annotation_list.annotations@.len(),
            forall|k: int|
                0 <= k < annotation_list@.len() ==> ((#[trigger] annotation_list@[k]).highlight
                    is Some ==> annotation_list@[k].highlight_color is Some),
            r@ == spec_book_header_md(book@) + spec_annotations_md(
                book@.asin,
                annotation_list@.take(i as int),
            ),
        decreases n - i,
    {
        let ghost prev = r@;
        let a = &annotation_list.annotations[i];
        proof {
            assert(annotation_list@[i as int] == a@);
        }
        let block = annotation_md(&book.asin, a);
        r.append(block.as_str());
        proof {
            assert(annotation_list@.take(i + 1 as int).drop_last() =~= annotation_list@.take(
                i as int,
            ));
            assert(annotation_list@.take(i + 1 as int).last() == a@);
            assert(r@ =~= spec_book_header_md(book@) + spec_annotations_md(
                book@.asin,
                annotation_list@.take(i + 1 as int),
            ));
        }
        i += 1;
    }
    proof {
        assert(annotation_list@.take(n as int) =~= annotation_list@);
    }
    r
}

/// Renders the markdown block of one annotation.
#[verifier::rlimit(60)]
fn annotation_md(book_asin: &String, a: &Annotation) -> (r: String)
    requires
        a@.highlight is Some ==> a@.highlight_color is Some,
    ensures
        r@ == spec_annotation_md(book_asin@, a@),
{
    let mut r = String::new();
    r.append("\n");
    r.append("---\n");
    match (&a.highlight, &a.highlight_color) {
        (Some(hl), Some(c)) => {
            r.append("**");
            r.append(c.as_str());
            r.append(" highlight:**\n");
            r.append("> ");
            r.append(hl.as_str());
            r.append("\n");
            r.append("\n");
        },
        _ => {},
    }
    match &a.note {
        Some(nt) => {
            r.append("**Note:**\n");
            r.append(nt.as_str());
            r.append("\n");
            r.append("\n");
        },
        None => {},
    }
    match &a.page {
        Some(p) => {
            r.append("**Page:**\n");
            let ps = u32_to_string(*p);
            r.append(ps.as_str());
            r.append("\n");
            r.append("\n");
        },
        None => {},
    }
    r.append("**Link:**\n");
    r.append("[Kindle App](kindle://book?action=open&asin=");
    r.append(book_asin.as_str());
    r.append("&location=");
    let ls = u32_to_string(a.location);
    r.append(ls.as_str());
    r.append(")\n");
    r.append("\n");
    r.append("---\n");
    proof {
        assert(r@ =~= spec_annotation_md(book_asin@, a@));
    }
    r
}

/// The file name under which a book's export is written.
pub fn markdown_file_name(title: &str) -> (r: String)
    ensures
        r@ == title@ + ".md"@,
{
    let mut r = title.to_owned();
    r.append(".md");
    r
}

} // verus!
