//! Extraction of annotations (highlights, notes, pages, locations) from a
//! book's notebook HTML.

use vstd::prelude::*;

use crate::html::{
    first_attr_of, first_inner_html_of, select_first_attr, select_first_inner_html,
    select_outer_htmls, selections_of, HtmlError,
};
use crate::record::opt_string_eq_spec;
use crate::strutil::{
    all_digits, digits_val, parse_u32, split2, split2_first, split2_rest, str_eq, trim_str,
    trimmed,
};

verus! {

/// One annotation: a highlight, a note, or both, with an optional page
/// number and the location inside the book.
#[derive(Debug)]
pub struct Annotation {
    pub highlight: Option<String>,
    pub highlight_color: Option<String>,
    pub note: Option<String>,
    pub page: Option<u32>,
    pub location: u32,
}

/// Mathematical model of an `Annotation`.
pub struct AnnotationView {
    pub highlight: Option<Seq<char>>,
    pub highlight_color: Option<Seq<char>>,
    pub note: Option<Seq<char>>,
    pub page: Option<u32>,
    pub location: u32,
}

impl View for Annotation {
    type V = AnnotationView;

    open spec fn view(&self) -> AnnotationView {
        AnnotationView {
            highlight: match self.highlight {
                Some(s) => Some(s@),
                None => None,
            },
            highlight_color: match self.highlight_color {
                Some(s) => Some(s@),
                None => None,
            },
            note: match self.note {
                Some(s) => Some(s@),
                None => None,
            },
            page: self.page,
            location: self.location,
        }
    }
}

fn opt_string_eq(a: &Option<String>, b: &Option<String>) -> (r: bool)
    ensures
        r == opt_string_eq_spec(*a, *b),
{
    match (a, b) {
        (Some(x), Some(y)) => *x == *y,
        (None, None) => true,
        _ => false,
    }
}

fn opt_u32_eq(a: &Option<u32>, b: &Option<u32>) -> (r: bool)
    ensures
        r == (*a == *b),
{
    match (a, b) {
        (Some(x), Some(y)) => *x == *y,
        (None, None) => true,
        _ => false,
    }
}

impl PartialEq for Annotation {
    fn eq(&self, other: &Annotation) -> (r: bool)
    {
        opt_string_eq(&self.highlight, &other.highlight)
            && opt_string_eq(&self.highlight_color, &other.highlight_color)
            && opt_string_eq(&self.note, &other.note) && opt_u32_eq(&self.page, &other.page)
            && self.location == other.location
    }
}

impl Eq for Annotation {}

impl vstd::std_specs::cmp::PartialEqSpecImpl for Annotation {
    open spec fn obeys_eq_spec() -> bool {
        true
    }

    open spec fn eq_spec(&self, other: &Annotation) -> bool {
        self@ == other@
    }
}

/// The annotations of one book, in document order.
#[derive(Debug)]
pub struct AnnotationList {
    pub annotations: Vec<Annotation>,
}

impl View for AnnotationList {
    type V = Seq<AnnotationView>;

    open spec fn view(&self) -> Seq<AnnotationView> {
        Seq::new(self.annotations@.len(), |i: int| self.annotations@[i]@)
    }
}

impl PartialEq for AnnotationList {
    fn eq(&self, other: &AnnotationList) -> (r: bool)
    {
        let n = self.annotations.len();
        if n != other.annotations.len() {
            proof {
                assert(self@.len() != other@.len());
            }
            return false;
        }
        let mut i: usize = 0;
        while i < n
            invariant
                n == self.annotations@.len(),
                n == other.annotations@.len(),
                0 <= i <= n,
                forall|j: int| 0 <= j < i ==> self@[j] == other@[j],
            decreases n - i,
        {
            if !(self.annotations[i] == other.annotations[i]) {
                proof {
                    assert(self@[i as int] != other@[i as int]);
                }
                return false;
            }
            i += 1;
        }
        proof {
            assert(self@ =~= other@);
        }
        true
    }
}

impl Eq for AnnotationList {}

impl vstd::std_specs::cmp::PartialEqSpecImpl for AnnotationList {
    open spec fn obeys_eq_spec() -> bool {
        true
    }

    open spec fn eq_spec(&self, other: &AnnotationList) -> bool {
        self@ == other@
    }
}

/// The page number carried by an annotation header of the form
/// "... | Page:&nbsp;N" — or none when the header names a location
/// instead.  A header without "|", or a page that does not parse as a
/// 32-bit number, is malformed.
pub open spec fn spec_page_of_header(header: Seq<char>) -> Result<Option<u32>, HtmlError> {
    match split2_rest(header, "|"@) {
        None => Err(HtmlError::MalformedHeader),
        Some(hp1) => {
            let t = trimmed(hp1);
            if split2_first(t, ":&nbsp;"@) == "Page"@ {
                match split2_rest(t, ":&nbsp;"@) {
                    None => Err(HtmlError::MalformedHeader),
                    Some(v) => if v.len() > 0 && all_digits(v) && digits_val(v) <= u32::MAX {
                        Ok(Some(digits_val(v) as u32))
                    } else {
                        Err(HtmlError::BadNumber)
                    },
                }
            } else {
                Ok(None)
            }
        },
    }
}

fn page_of_header(header: &str) -> (r: Result<Option<u32>, HtmlError>)
    ensures
        r == spec_page_of_header(header@),
{
    let (_, rest) = split2(header, "|");
    match rest {
        None => Err(HtmlError::MalformedHeader),
        Some(hp1) => {
            let t = trim_str(hp1.as_str());
            let (key, val) = split2(t.as_str(), ":&nbsp;");
            if str_eq(key.as_str(), "Page") {
                match val {
                    None => Err(HtmlError::MalformedHeader),
                    Some(v) => match parse_u32(v.as_str()) {
                        Some(p) => Ok(Some(p)),
                        None => Err(HtmlError::BadNumber),
                    },
                }
            } else {
                Ok(None)
            }
        },
    }
}

/// The highlight color named by an annotation header: the first word of
/// the part before "|", after trimming.
pub open spec fn spec_color_of_header(header: Seq<char>) -> Seq<char> {
    split2_first(trimmed(split2_first(header, "|"@)), " "@)
}

fn color_of_header(header: &str) -> (r: String)
    ensures
        r@ == spec_color_of_header(header@),
{
    let (before, _) = split2(header, "|");
    let t = trim_str(before.as_str());
    let (color, _) = split2(t.as_str(), " ");
    color
}

/// The note part of an annotation: the note element must exist; an empty
/// note element means there is no note.  When there is a note and no
/// highlight, the note's header decides the page number.
pub open spec fn spec_note_and_page(h: Seq<char>, highlight_present: bool) -> Result<
    (Option<Seq<char>>, Option<u32>),
    HtmlError,
> {
    match first_inner_html_of(h, "span#note"@) {
        None => Err(HtmlError::MissingNote),
        Some(note_str) => if note_str.len() == 0 {
            Ok((None, None))
        } else if highlight_present {
            Ok((Some(note_str), None))
        } else {
            match first_inner_html_of(h, "span#annotationNoteHeader"@) {
                None => Err(HtmlError::MissingNoteHeader),
                Some(nh) => match spec_page_of_header(nh) {
                    Err(e) => Err(e),
                    Ok(p) => Ok((Some(note_str), p)),
                },
            }
        },
    }
}

/// The location element closes the extraction: its value must exist and
/// parse as a 32-bit number.
pub open spec fn spec_with_location(
    h: Seq<char>,
    highlight: Option<Seq<char>>,
    highlight_color: Option<Seq<char>>,
    note: Option<Seq<char>>,
    page: Option<u32>,
) -> Result<AnnotationView, HtmlError> {
    match first_attr_of(h, "input#kp-annotation-location"@, "value"@) {
        None => Err(HtmlError::MissingLocation),
        Some(v) => if v.len() > 0 && all_digits(v) && digits_val(v) <= u32::MAX {
            Ok(
                AnnotationView {
                    highlight,
                    highlight_color,
                    note,
                    page,
                    location: digits_val(v) as u32,
                },
            )
        } else {
            Err(HtmlError::BadNumber)
        },
    }
}

/// What extracting one annotation from its fragment yields.  A present
/// highlight brings its header's color and page; the note element decides
/// the note and, when there is no highlight, the page; the location is
/// always required.
pub open spec fn spec_annotation_from_html(h: Seq<char>) -> Result<AnnotationView, HtmlError> {
    match first_inner_html_of(h, "span#highlight"@) {
        Some(hl) => match first_inner_html_of(h, "span#annotationHighlightHeader"@) {
            None => Err(HtmlError::MissingHighlightHeader),
            Some(header) => match spec_page_of_header(header) {
                Err(e) => Err(e),
                Ok(hpage) => match spec_note_and_page(h, true) {
                    Err(e) => Err(e),
                    Ok((note, _)) => spec_with_location(
                        h,
                        Some(hl),
                        Some(spec_color_of_header(header)),
                        note,
                        hpage,
                    ),
                },
            },
        },
        None => match spec_note_and_page(h, false) {
            Err(e) => Err(e),
            Ok((note, npage)) => spec_with_location(h, None, None, note, npage),
        },
    }
}

impl Annotation {
    /// Extracts one annotation from its fragment.
    pub fn from_html(html: &str) -> (r: Result<Annotation, HtmlError>)
        ensures
            match r {
                Ok(a) => spec_annotation_from_html(html@) == Ok::<AnnotationView, HtmlError>(a@),
                Err(e) => spec_annotation_from_html(html@) == Err::<AnnotationView, HtmlError>(e),
            },
    {
        let highlight = select_first_inner_html(html, "span#highlight");
        let mut highlight_color: Option<String> = None;
        let mut page: Option<u32> = None;
        let highlight_present = highlight.is_some();
        if highlight_present {
            let header = match select_first_inner_html(html, "span#annotationHighlightHeader") {
                None => {
                    return Err(HtmlError::MissingHighlightHeader);
                },
                Some(hd) => hd,
            };
            page = match page_of_header(header.as_str()) {
                Err(e) => {
                    return Err(e);
                },
                Ok(p) => p,
            };
            highlight_color = Some(color_of_header(header.as_str()));
        }
        let note_str = match select_first_inner_html(html, "span#note") {
            None => {
                return Err(HtmlError::MissingNote);
            },
            Some(s) => s,
        };
        let mut note: Option<String> = None;
        if note_str.as_str().unicode_len() > 0 {
            note = Some(note_str);
            if !highlight_present {
                let nh = match select_first_inner_html(html, "span#annotationNoteHeader") {
                    None => {
                        return Err(HtmlError::MissingNoteHeader);
                    },
                    Some(s) => s,
                };
                page = match page_of_header(nh.as_str()) {
                    Err(e) => {
                        return Err(e);
                    },
                    Ok(p) => p,
                };
            }
        }
        let location_str = match select_first_attr(html, "input#kp-annotation-location", "value") {
            None => {
                return Err(HtmlError::MissingLocation);
            },
            Some(s) => s,
        };
        let location = match parse_u32(location_str.as_str()) {
            None => {
                return Err(HtmlError::BadNumber);
            },
            Some(v) => v,
        };
        Ok(Annotation { highlight, highlight_color, note, page, location })
    }
}

/// The annotations extracted from a sequence of fragments, in order; the
/// first fragment that fails decides the error.
pub open spec fn spec_annotations_from_fragments(sels: Seq<Seq<char>>) -> Result<
    Seq<AnnotationView>,
    HtmlError,
>
    decreases sels.len(),
{
    if sels.len() == 0 {
        Ok(Seq::empty())
    } else {
        match spec_annotations_from_fragments(sels.drop_last()) {
            Err(e) => Err(e),
            Ok(avs) => match spec_annotation_from_html(sels.last()) {
                Err(e) => Err(e),
                Ok(a) => Ok(avs.push(a)),
            },
        }
    }
}

/// What extracting a book's whole annotation list yields: each element
/// matched by the row selector becomes one annotation, in document order.
pub open spec fn spec_annotation_list_from_html(h: Seq<char>) -> Result<
    Seq<AnnotationView>,
    HtmlError,
> {
    spec_annotations_from_fragments(selections_of(h, "div.kp-notebook-row-separator"@))
}

impl AnnotationList {
    /// Extracts every annotation of a book's notebook page, in document
    /// order.
    pub fn from_html(html: &str) -> (r: Result<AnnotationList, HtmlError>)
        ensures
            match r {
                Ok(list) => spec_annotation_list_from_html(html@) == Ok::<
                    Seq<AnnotationView>,
                    HtmlError,
                >(list@),
                Err(e) => spec_annotation_list_from_html(html@) == Err::<
                    Seq<AnnotationView>,
                    HtmlError,
                >(e),
            },
    {
        let fragments = select_outer_htmls(html, "div.kp-notebook-row-separator");
        let ghost sels = selections_of(html@, "div.kp-notebook-row-separator"@);
        let n = fragments.len();
        let mut annotations: Vec<Annotation> = Vec::new();
        let mut i: usize = 0;
        proof {
            assert(sels.take(0) =~= Seq::<Seq<char>>::empty());
            assert(Seq::new(annotations@.len(), |j: int| annotations@[j]@) =~= Seq::<
                AnnotationView,
            >::empty());
        }
        while i < n
            invariant
                0 <= i <= n,
                n == fragments@.len(),
                sels == fragments.deep_view(),
                sels == selections_of(html@, "div.kp-notebook-row-separator"@),
                sels.len() == n,
                spec_annotations_from_fragments(sels.take(i as int)) == Ok::<
                    Seq<AnnotationView>,
                    HtmlError,
                >(Seq::new(annotations@.len(), |j: int| annotations@[j]@)),
            decreases n - i,
        {
            proof {
                assert(sels.take(i + 1 as int).drop_last() =~= sels.take(i as int));
                assert(sels.take(i + 1 as int).last() == sels[i as int]);
                assert(fragments@[i as int]@ == sels[i as int]);
            }
            match Annotation::from_html(fragments[i].as_str()) {
                Err(e) => {
                    proof {
                        assert(spec_annotations_from_fragments(sels.take(i + 1 as int)) == Err::<
                            Seq<AnnotationView>,
                            HtmlError,
                        >(e));
                        lemma_annotations_error_persists(sels, i + 1 as int);
                        assert(sels.take(n as int) =~= sels);
                    }
                    return Err(e);
                },
                Ok(a) => {
                    let ghost prev = annotations@;
                    let ghost av = a@;
                    annotations.push(a);
                    proof {
                        assert(annotations@ == prev.push(annotations@.last()));
                        assert(Seq::new(annotations@.len(), |j: int| annotations@[j]@) =~= Seq::new(
                            prev.len(),
                            |j: int| prev[j]@,
                        ).push(av));
                    }
                },
            }
            i += 1;
        }
        proof {
            assert(sels.take(n as int) =~= sels);
        }
        let list = AnnotationList { annotations };
        proof {
            assert(list@ =~= Seq::new(list.annotations@.len(), |j: int| list.annotations@[j]@));
        }
        Ok(list)
    }
}

/// Once a prefix of the fragments fails, the whole sequence fails with
/// the same error.
proof fn lemma_annotations_error_persists(sels: Seq<Seq<char>>, i: int)
    requires
        0 <= i <= sels.len(),
        spec_annotations_from_fragments(sels.take(i)) is Err,
    ensures
        spec_annotations_from_fragments(sels.take(sels.len() as int))
            == spec_annotations_from_fragments(sels.take(i)),
    decreases sels.len() - i,
{
    if i < sels.len() {
        assert(sels.take(i + 1).drop_last() =~= sels.take(i));
        lemma_annotations_error_persists(sels, i + 1);
    }
}

} // verus!
