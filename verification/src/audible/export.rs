//! Grouping of exported source files into books, extraction of clip
//! annotations, and the markdown rendering of one audiobook.

use vstd::prelude::*;

use crate::audible::api::{Chapter, GetAnnotationsResponse, GetChaptersResponse, Record};
use crate::strutil::{
    dec_str, digits_val, has_suffix, is_u32_str, parse_u32, str_eq, strip_suffix_str,
    u32_to_string,
};

verus! {

/// What an Audible export run needs: where the exported files sit, where
/// to write, and whether to overwrite or clean up.
pub struct ExportOpts {
    pub source: String,
    pub target: String,
    pub force: bool,
    pub clean: bool,
}

/// The files found for one book: its chapters file, its annotations file,
/// and its companion PDF, each optional while the source is scanned.
pub struct BookEntry {
    pub chapter: Option<String>,
    pub annotation: Option<String>,
    pub pdf: Option<String>,
}

/// Mathematical model of a `BookEntry`.
pub struct BookEntryView {
    pub chapter: Option<Seq<char>>,
    pub annotation: Option<Seq<char>>,
    pub pdf: Option<Seq<char>>,
}

impl View for BookEntry {
    type V = BookEntryView;

    open spec fn view(&self) -> BookEntryView {
        BookEntryView {
            chapter: match self.chapter {
                Some(s) => Some(s@),
                None => None,
            },
            annotation: match self.annotation {
                Some(s) => Some(s@),
                None => None,
            },
            pdf: match self.pdf {
                Some(s) => Some(s@),
                None => None,
            },
        }
    }
}

/// A fresh entry with no files found yet.
pub fn empty_book_entry() -> (e: BookEntry)
    ensures
        e@.chapter is None,
        e@.annotation is None,
        e@.pdf is None,
{
    BookEntry { chapter: None, annotation: None, pdf: None }
}

/// One file of the source directory, already split into its stem, its
/// extension, and its full path.
pub struct SourceFile {
    pub stem: String,
    pub extension: String,
    pub path: String,
}

/// What a source file contributes: the chapters or annotations of the
/// book its stem names, its companion PDF, or nothing.
#[derive(Clone, Debug, PartialEq, Eq, Structural)]
pub enum SourceFileKind {
    Chapters,
    Annotations,
    Pdf,
    Unrecognized,
}

/// How a file is classified: a "*-chapters.json" file holds chapters, a
/// "*-annotations.json" file holds annotations, a PDF is a companion,
/// and everything else is skipped.
pub open spec fn spec_classify(stem: Seq<char>, ext: Seq<char>) -> SourceFileKind {
    if ext == "json"@ {
        if has_suffix(stem, "-chapters"@) {
            SourceFileKind::Chapters
        } else if has_suffix(stem, "-annotations"@) {
            SourceFileKind::Annotations
        } else {
            SourceFileKind::Unrecognized
        }
    } else if ext == "pdf"@ {
        SourceFileKind::Pdf
    } else {
        SourceFileKind::Unrecognized
    }
}

/// The book title a classified file belongs to: the stem, minus the
/// "-chapters" or "-annotations" marker.
pub open spec fn spec_title_of(stem: Seq<char>, ext: Seq<char>) -> Seq<char> {
    match spec_classify(stem, ext) {
        SourceFileKind::Chapters => stem.subrange(0, stem.len() - "-chapters"@.len()),
        SourceFileKind::Annotations => stem.subrange(0, stem.len() - "-annotations"@.len()),
        _ => stem,
    }
}

/// Classifies one source file by its extension and stem, and hands back
/// the book title it belongs to.
pub fn classify_source_file(stem: &str, extension: &str) -> (r: (SourceFileKind, String))
    ensures
        r.0 == spec_classify(stem@, extension@),
        r.1@ == spec_title_of(stem@, extension@),
{
    if str_eq(extension, "json") {
        match strip_suffix_str(stem, "-chapters") {
            Some(title) => (SourceFileKind::Chapters, title),
            None => match strip_suffix_str(stem, "-annotations") {
                Some(title) => (SourceFileKind::Annotations, title),
                None => (SourceFileKind::Unrecognized, stem.to_owned()),
            },
        }
    } else if str_eq(extension, "pdf") {
        (SourceFileKind::Pdf, stem.to_owned())
    } else {
        (SourceFileKind::Unrecognized, stem.to_owned())
    }
}

/// Position of the book `title` in the grouping so far, or -1.
pub open spec fn entry_idx(m: Seq<(Seq<char>, BookEntryView)>, title: Seq<char>, i: int) -> int
    decreases m.len() - i,
    when 0 <= i <= m.len()
{
    if i >= m.len() {
        -1
    } else if m[i].0 == title {
        i
    } else {
        entry_idx(m, title, i + 1)
    }
}

proof fn lemma_entry_idx_props(m: Seq<(Seq<char>, BookEntryView)>, title: Seq<char>, i: int)
    requires
        0 <= i <= m.len(),
    ensures
        ({
            let f = entry_idx(m, title, i);
            ||| (f == -1 && forall|j: int| i <= j < m.len() ==> m[j].0 != title)
            ||| (i <= f < m.len() && m[f].0 == title && forall|j: int| i <= j < f ==> m[j].0
                != title)
        }),
    decreases m.len() - i,
{
    if i < m.len() && m[i].0 != title {
        lemma_entry_idx_props(m, title, i + 1);
    }
}

/// The grouping after one classified file is folded in: the file's path
/// lands in the slot its kind names, on the entry of its title; a title
/// seen for the first time is appended.
pub open spec fn spec_apply_file(m: Seq<(Seq<char>, BookEntryView)>, f: SourceFile) -> Seq<
    (Seq<char>, BookEntryView),
> {
    let kind = spec_classify(f.stem@, f.extension@);
    let title = spec_title_of(f.stem@, f.extension@);
    if kind == SourceFileKind::Unrecognized {
        m
    } else {
        let e = ({
            let i = entry_idx(m, title, 0);
            if i == -1 {
                BookEntryView { chapter: None, annotation: None, pdf: None }
            } else {
                m[i].1
            }
        });
        let e2 = (match kind {
            SourceFileKind::Chapters => BookEntryView { chapter: Some(f.path@), ..e },
            SourceFileKind::Annotations => BookEntryView { annotation: Some(f.path@), ..e },
            _ => BookEntryView { pdf: Some(f.path@), ..e },
        });
        let i = entry_idx(m, title, 0);
        if i == -1 {
            m.push((title, e2))
        } else {
            m.update(i, (title, e2))
        }
    }
}

/// The grouping of a whole list of source files, in encounter order.
pub open spec fn spec_group(files: Seq<SourceFile>) -> Seq<(Seq<char>, BookEntryView)>
    decreases files.len(),
{
    if files.len() == 0 {
        Seq::empty()
    } else {
        spec_apply_file(spec_group(files.drop_last()), files.last())
    }
}

/// The model of a grouping under construction.
pub open spec fn group_model(acc: Seq<(String, BookEntry)>) -> Seq<(Seq<char>, BookEntryView)> {
    Seq::new(acc.len(), |i: int| (acc[i].0@, acc[i].1@))
}

fn find_title(acc: &Vec<(String, BookEntry)>, title: &String) -> (r: Option<usize>)
    ensures
        match r {
            Some(i) => entry_idx(group_model(acc@), title@, 0) == i,
            None => entry_idx(group_model(acc@), title@, 0) == -1,
        },
{
    let n = acc.len();
    let mut i: usize = 0;
    while i < n
        invariant
            0 <= i <= n,
            n == acc@.len(),
            forall|j: int| 0 <= j < i ==> group_model(acc@)[j].0 != title@,
        decreases n - i,
    {
        if acc[i].0 == *title {
            proof {
                lemma_entry_idx_skip(group_model(acc@), title@, i as int);
            }
            return Some(i);
        }
        i += 1;
    }
    proof {
        lemma_entry_idx_skip(group_model(acc@), title@, n as int);
    }
    None
}

proof fn lemma_entry_idx_skip(m: Seq<(Seq<char>, BookEntryView)>, title: Seq<char>, i: int)
    requires
        0 <= i <= m.len(),
        forall|j: int| 0 <= j < i ==> m[j].0 != title,
    ensures
        entry_idx(m, title, 0) == entry_idx(m, title, i),
    decreases i,
{
    if i > 0 {
        lemma_entry_idx_skip(m, title, i - 1);
    }
}

fn clone_opt_string(s: &Option<String>) -> (r: Option<String>)
    ensures
        r == *s,
{
    match s {
        Some(x) => Some(x.clone()),
        None => None,
    }
}

/// Groups the source files by book title, first appearance first; each
/// file's path fills the chapter, annotation or PDF slot of its book, and
/// unrecognized files are skipped.
pub fn group_book_files(files: &Vec<SourceFile>) -> (r: Vec<(String, BookEntry)>)
    ensures
        group_model(r@) == spec_group(files@),
{
    let n = files.len();
    let mut acc: Vec<(String, BookEntry)> = Vec::new();
    let mut i: usize = 0;
    proof {
        assert(files@.take(0) =~= Seq::<SourceFile>::empty());
        assert(group_model(acc@) =~= spec_group(files@.take(0)));
    }
    while i < n
        invariant
            0 <= i <= n,
            n == files@.len(),
            group_model(acc@) == spec_group(files@.take(i as int)),
        decreases n - i,
    {
        let ghost prev = group_model(acc@);
        let f = &files[i];
        let (kind, title) = classify_source_file(f.stem.as_str(), f.extension.as_str());
        if !matches!(kind, SourceFileKind::Unrecognized) {
            let found = find_title(&acc, &title);
            let e = match found {
                Some(j) => {
                    proof {
                        lemma_entry_idx_props(prev, title@, 0);
                    }
                    BookEntry {
                        chapter: clone_opt_string(&acc[j].1.chapter),
                        annotation: clone_opt_string(&acc[j].1.annotation),
                        pdf: clone_opt_string(&acc[j].1.pdf),
                    }
                },
                None => empty_book_entry(),
            };
            let e2 = match kind {
                SourceFileKind::Chapters => BookEntry {
                    chapter: Some(f.path.clone()),
                    annotation: e.annotation,
                    pdf: e.pdf,
                },
                SourceFileKind::Annotations => BookEntry {
                    chapter: e.chapter,
                    annotation: Some(f.path.clone()),
                    pdf: e.pdf,
                },
                _ => BookEntry { chapter: e.chapter, annotation: e.annotation, pdf: Some(
                    f.path.clone(),
                ) },
            };
            match found {
                Some(j) => {
                    acc[j] = (title, e2);
                    proof {
                        assert(group_model(acc@) =~= prev.update(j as int, (title@, e2@)));
                    }
                },
                None => {
                    acc.push((title, e2));
                    proof {
                        assert(group_model(acc@) =~= prev.push((title@, e2@)));
                    }
                },
            }
        }
        proof {
            assert(files@.take(i + 1 as int).drop_last() =~= files@.take(i as int));
            assert(files@.take(i + 1 as int).last() == files@[i as int]);
            assert(group_model(acc@) =~= spec_apply_file(prev, files@[i as int]));
        }
        i += 1;
    }
    proof {
        assert(files@.take(n as int) =~= files@);
    }
    acc
}

/// One clip annotation, with its note if one was written.
pub struct Annotation {
    pub start_position: u32,
    pub end_position: u32,
    pub creation_time: String,
    pub annotation_id: String,
    pub last_modification_time: String,
    pub note: Option<String>,
    pub note_version: Option<u32>,
}

/// Whether a record is a clip.  Only clips become annotations: a clip is
/// a superset of a bookmark and carries any note.
pub open spec fn is_clip(r: Record) -> bool {
    r.record_type@ == "audible.clip"@
}

/// What a clip record must hold for extraction: parseable positions, an
/// identity, a modification time, and a parseable note version when a
/// note is present.
pub open spec fn clip_ok(r: Record) -> bool {
    &&& is_u32_str(r.start_position@)
    &&& match r.end_position {
        Some(e) => is_u32_str(e@),
        None => false,
    }
    &&& r.annotation_id is Some
    &&& r.last_modification_time is Some
    &&& match r.metadata {
        Some(m) => m.note is Some ==> is_u32_str(m.c_version@),
        None => true,
    }
}

/// The annotation extracted from one well-formed clip record.
pub open spec fn spec_clip_annotation(r: Record) -> (Seq<char>, Option<Seq<char>>, Option<u32>) {
    (
        r.creation_time@,
        match r.metadata {
            Some(m) => match m.note {
                Some(nt) => Some(nt@),
                None => None,
            },
            None => None,
        },
        match r.metadata {
            Some(m) => match m.note {
                Some(_) => Some(digits_val(m.c_version@) as u32),
                None => None,
            },
            None => None,
        },
    )
}

/// Whether an extracted annotation models a clip record.
pub open spec fn annotation_models(a: Annotation, r: Record) -> bool {
    &&& a.start_position == digits_val(r.start_position@)
    &&& match r.end_position {
        Some(e) => a.end_position == digits_val(e@),
        None => false,
    }
    &&& a.creation_time@ == r.creation_time@
    &&& match r.annotation_id {
        Some(id) => a.annotation_id@ == id@,
        None => false,
    }
    &&& match r.last_modification_time {
        Some(t) => a.last_modification_time@ == t@,
        None => false,
    }
    &&& spec_clip_annotation(r).1 == (match a.note {
        Some(nt) => Some(nt@),
        None => None::<Seq<char>>,
    })
    &&& spec_clip_annotation(r).2 == a.note_version
}

/// The positions, in order, of the clip records in a record list.
pub open spec fn clip_positions(rs: Seq<Record>) -> Seq<int>
    decreases rs.len(),
{
    if rs.len() == 0 {
        Seq::empty()
    } else {
        let rest = clip_positions(rs.drop_last());
        if is_clip(rs.last()) {
            rest.push(rs.len() - 1)
        } else {
            rest
        }
    }
}

/// Checks that every clip record in the list is well-formed enough to be
/// extracted.
pub fn records_well_formed(records: &Vec<Record>) -> (r: bool)
    ensures
        r == forall|i: int|
            0 <= i < records@.len() ==> (is_clip(#[trigger] records@[i]) ==> clip_ok(
                records@[i],
            )),
{
    let n = records.len();
    let mut i: usize = 0;
    while i < n
        invariant
            0 <= i <= n,
            n == records@.len(),
            forall|j: int|
                0 <= j < i ==> (is_clip(#[trigger] records@[j]) ==> clip_ok(records@[j])),
        decreases n - i,
    {
        let rec = &records[i];
        if str_eq(rec.record_type.as_str(), "audible.clip") {
            if parse_u32(rec.start_position.as_str()).is_none() {
                return false;
            }
            match &rec.end_position {
                None => {
                    return false;
                },
                Some(e) => {
                    if parse_u32(e.as_str()).is_none() {
                        return false;
                    }
                },
            }
            if rec.annotation_id.is_none() {
                return false;
            }
            if rec.last_modification_time.is_none() {
                return false;
            }
            match &rec.metadata {
                Some(m) => {
                    if m.note.is_some() {
                        if parse_u32(m.c_version.as_str()).is_none() {
                            return false;
                        }
                    }
                },
                None => {},
            }
        }
        i += 1;
    }
    true
}

/// Extracts the clip annotations from a record list, in record order.
/// Non-clip records are skipped.
pub fn parse_annotations(records: &Vec<Record>) -> (r: Vec<Annotation>)
    requires
        forall|i: int|
            0 <= i < records@.len() ==> (is_clip(#[trigger] records@[i]) ==> clip_ok(records@[i])),
    ensures
        r@.len() == clip_positions(records@).len(),
        forall|k: int|
            0 <= k < r@.len() ==> annotation_models(
                #[trigger] r@[k],
                records@[clip_positions(records@)[k]],
            ),
{
    let n = records.len();
    let mut res: Vec<Annotation> = Vec::new();
    let mut i: usize = 0;
    proof {
        assert(clip_positions(records@.take(0)) =~= Seq::<int>::empty());
    }
    while i < n
        invariant
            0 <= i <= n,
            n == records@.len(),
            forall|j: int|
                0 <= j < records@.len() ==> (is_clip(#[trigger] records@[j]) ==> clip_ok(
                    records@[j],
                )),
            res@.len() == clip_positions(records@.take(i as int)).len(),
            forall|k: int|
                0 <= k < res@.len() ==> annotation_models(
                    #[trigger] res@[k],
                    records@[clip_positions(records@.take(i as int))[k]],
                ),
            forall|k: int|
                0 <= k < clip_positions(records@.take(i as int)).len()
                    ==> 0 <= #[trigger] clip_positions(records@.take(i as int))[k] < i,
        decreases n - i,
    {
        let ghost prev_pos = clip_positions(records@.take(i as int));
        proof {
            assert(records@.take(i + 1 as int).drop_last() =~= records@.take(i as int));
            assert(records@.take(i + 1 as int).last() == records@[i as int]);
        }
        let rec = &records[i];
        if str_eq(rec.record_type.as_str(), "audible.clip") {
            proof {
                assert(is_clip(records@[i as int]));
                assert(clip_ok(records@[i as int]));
            }
            let start_position = match parse_u32(rec.start_position.as_str()) {
                Some(v) => v,
                None => {
                    proof {
                        assert(false);
                    }
                    0
                },
            };
            let end_position = match &rec.end_position {
                Some(e) => match parse_u32(e.as_str()) {
                    Some(v) => v,
                    None => {
                        proof {
                            assert(false);
                        }
                        0
                    },
                },
                None => {
                    proof {
                        assert(false);
                    }
                    0
                },
            };
            let annotation_id = match &rec.annotation_id {
                Some(id) => id.clone(),
                None => {
                    proof {
                        assert(false);
                    }
                    String::new()
                },
            };
            let last_modification_time = match &rec.last_modification_time {
                Some(t) => t.clone(),
                None => {
                    proof {
                        assert(false);
                    }
                    String::new()
                },
            };
            let (note, note_version) = match &rec.metadata {
                Some(m) => match &m.note {
                    Some(nt) => {
                        let v = match parse_u32(m.c_version.as_str()) {
                            Some(v) => v,
                            None => {
                                proof {
                                    assert(false);
                                }
                                0
                            },
                        };
                        (Some(nt.clone()), Some(v))
                    },
                    None => (None, None),
                },
                None => (None, None),
            };
            res.push(
                Annotation {
                    start_position,
                    end_position,
                    creation_time: rec.creation_time.clone(),
                    annotation_id,
                    last_modification_time,
                    note,
                    note_version,
                },
            );
            proof {
                assert(clip_positions(records@.take(i + 1 as int)) =~= prev_pos.push(i as int));
            }
        } else {
            proof {
                assert(!is_clip(records@[i as int]));
                assert(clip_positions(records@.take(i + 1 as int)) =~= prev_pos);
            }
        }
        i += 1;
    }
    proof {
        assert(records@.take(n as int) =~= records@);
    }
    res
}

/// The markdown header block of one audiobook: identity, title, and the
/// last-heard marker, then a link to the companion PDF when there is one.
pub open spec fn spec_headers_md(title: Seq<char>, c: GetChaptersResponse, has_pdf: bool) -> Seq<
    char,
> {
    "---\n"@ + "asin: "@ + c.content_metadata.content_reference.asin@ + "\n"@ + "title: "@ + title
        + "\n"@ + (match c.content_metadata.last_position_heard.last_updated {
        Some(lh) => "last_heard: "@ + lh@ + "\n"@,
        None => "last_heard: -\n"@,
    }) + "\n"@ + "---\n"@ + "\n"@ + (if has_pdf {
        "PDF: [link](./"@ + title + ".pdf)\n"@ + "\n"@ + "---\n"@ + "\n"@
    } else {
        Seq::<char>::empty()
    })
}

/// Renders the markdown header block of one audiobook.
#[verifier::rlimit(60)]
pub fn headers_md(title: &str, chapter: &GetChaptersResponse, has_pdf: bool) -> (r: String)
    ensures
        r@ == spec_headers_md(title@, *chapter, has_pdf),
{
    let mut r = String::new();
    r.append("---\n");
    r.append("asin: ");
    r.append(chapter.content_metadata.content_reference.asin.as_str());
    r.append("\n");
    r.append("title: ");
    r.append(title);
    r.append("\n");
    match &chapter.content_metadata.last_position_heard.last_updated {
        Some(lh) => {
            r.append("last_heard: ");
            r.append(lh.as_str());
            r.append("\n");
        },
        None => {
            r.append("last_heard: -\n");
        },
    }
    r.append("\n");
    r.append("---\n");
    r.append("\n");
    if has_pdf {
        r.append("PDF: [link](./");
        r.append(title);
        r.append(".pdf)\n");
        r.append("\n");
        r.append("---\n");
        r.append("\n");
    }
    proof {
        assert(r@ =~= spec_headers_md(title@, *chapter, has_pdf));
    }
    r
}

/// The table-of-contents line of one chapter, then its sub-chapters,
/// indented two more spaces per level.
pub open spec fn spec_chapter_md(c: Chapter, indent: Seq<char>) -> Seq<char>
    decreases c,
{
    indent + "- "@ + c.title@ + "   |   [start: "@ + dec_str(c.start_offset_ms as nat)
        + ", duration: "@ + dec_str(c.length_ms as nat) + "]\n"@ + (match c.chapters {
        Some(sub) => spec_chapters_md(sub@, indent + "  "@),
        None => Seq::<char>::empty(),
    })
}

/// The table-of-contents lines of a chapter sequence, in order.
pub open spec fn spec_chapters_md(cs: Seq<Chapter>, indent: Seq<char>) -> Seq<char>
    decreases cs,
{
    if cs.len() == 0 {
        Seq::empty()
    } else {
        spec_chapters_md(cs.drop_last(), indent) + spec_chapter_md(cs.last(), indent)
    }
}

/// Renders the table of contents of a chapter tree, each level indented
/// two spaces further than `indent`.
pub fn chapters_md(chapters: &Vec<Chapter>, indent: &str) -> (r: String)
    ensures
        r@ == spec_chapters_md(chapters@, indent@),
    decreases chapters@,
{
    let n = chapters.len();
    let mut r = String::new();
    let mut i: usize = 0;
    proof {
        assert(chapters@.take(0) =~= Seq::<Chapter>::empty());
    }
    while i < n
        invariant
            0 <= i <= n,
            n == chapters@.len(),
            r@ == spec_chapters_md(chapters@.take(i as int), indent@),
        decreases n - i,
    {
        let ghost prev = r@;
        let c = &chapters[i];
        r.append(indent);
        r.append("- ");
        r.append(c.title.as_str());
        r.append("   |   [start: ");
        let s1 = u32_to_string(c.start_offset_ms);
        r.append(s1.as_str());
        r.append(", duration: ");
        let s2 = u32_to_string(c.length_ms);
        r.append(s2.as_str());
        r.append("]\n");
        match &c.chapters {
            Some(sub) => {
                proof {
                    assert(decreases_to!(chapters@ => chapters@[i as int]));
                    assert(decreases_to!(chapters@[i as int] => sub@));
                }
                let mut deeper = indent.to_owned();
                deeper.append("  ");
                let block = chapters_md(sub, deeper.as_str());
                r.append(block.as_str());
            },
            None => {},
        }
        proof {
            assert(r@ =~= prev + spec_chapter_md(chapters@[i as int], indent@));
            assert(chapters@.take(i + 1 as int).drop_last() =~= chapters@.take(i as int));
            assert(chapters@.take(i + 1 as int).last() == chapters@[i as int]);
            assert(r@ =~= spec_chapters_md(chapters@.take(i + 1 as int), indent@));
        }
        i += 1;
    }
    proof {
        assert(chapters@.take(n as int) =~= chapters@);
    }
    r
}

/// The markdown block of one clip record.  The record's creation time
/// stands in both the created and last-modified lines, as the exporter
/// has always written it.
pub open spec fn spec_record_block(r: Record) -> Seq<char> {
    "**Created:** "@ + r.creation_time@ + "\n"@ + "\n"@ + "**Last modified:** "@
        + r.creation_time@ + "\n"@ + "\n"@ + "**Clip range:** ["@ + dec_str(
        digits_val(r.start_position@),
    ) + ", "@ + dec_str(
        digits_val(
            match r.end_position {
                Some(e) => e@,
                None => Seq::<char>::empty(),
            },
        ),
    ) + "]\n"@ + "\n"@ + (match r.metadata {
        Some(m) => match m.note {
            Some(nt) => "**Note:** "@ + nt@ + "\n"@ + "\n"@,
            None => Seq::<char>::empty(),
        },
        None => Seq::<char>::empty(),
    }) + "---\n"@ + "\n"@
}

/// The markdown blocks of all clip records, in record order.
pub open spec fn spec_record_blocks(rs: Seq<Record>) -> Seq<char>
    decreases rs.len(),
{
    if rs.len() == 0 {
        Seq::empty()
    } else {
        let rest = spec_record_blocks(rs.drop_last());
        if is_clip(rs.last()) {
            rest + spec_record_block(rs.last())
        } else {
            rest
        }
    }
}

/// The annotations section of one audiobook: the payload's checksum line,
/// a fence, then one block per clip.
pub open spec fn spec_annotations_md(d: GetAnnotationsResponse) -> Seq<char> {
    "version (md5): "@ + d.md5@ + "\n"@ + "\n"@ + "---\n"@ + "\n"@ + spec_record_blocks(
        d.payload.records@,
    )
}

/// Renders the markdown block of one clip record.
#[verifier::rlimit(60)]
fn record_block_md(rec: &Record) -> (r: String)
    requires
        is_clip(*rec),
        clip_ok(*rec),
    ensures
        r@ == spec_record_block(*rec),
{
    let mut r = String::new();
    r.append("**Created:** ");
    r.append(rec.creation_time.as_str());
    r.append("\n");
    r.append("\n");
    r.append("**Last modified:** ");
    r.append(rec.creation_time.as_str());
    r.append("\n");
    r.append("\n");
    r.append("**Clip range:** [");
    let sp = match parse_u32(rec.start_position.as_str()) {
        Some(v) => v,
        None => {
            proof {
                assert(false);
            }
            0
        },
    };
    let s1 = u32_to_string(sp);
    r.append(s1.as_str());
    r.append(", ");
    let ep = match &rec.end_position {
        Some(e) => match parse_u32(e.as_str()) {
            Some(v) => v,
            None => {
                proof {
                    assert(false);
                }
                0
            },
        },
        None => {
            proof {
                assert(false);
            }
            0
        },
    };
    let s2 = u32_to_string(ep);
    r.append(s2.as_str());
    r.append("]\n");
    r.append("\n");
    match &rec.metadata {
        Some(m) => match &m.note {
            Some(nt) => {
                r.append("**Note:** ");
                r.append(nt.as_str());
                r.append("\n");
                r.append("\n");
            },
            None => {},
        },
        None => {},
    }
    r.append("---\n");
    r.append("\n");
    proof {
        assert(r@ =~= spec_record_block(*rec));
    }
    r
}

/// Renders the annotations section of one audiobook.
pub fn annotations_md(data: &GetAnnotationsResponse) -> (r: String)
    requires
        forall|i: int|
            0 <= i < data.payload.records@.len() ==> (is_clip(#[trigger] data.payload.records@[i])
                ==> clip_ok(data.payload.records@[i])),
    ensures
        r@ == spec_annotations_md(*data),
{
    let mut r = String::new();
    r.append("version (md5): ");
    r.append(data.md5.as_str());
    r.append("\n");
    r.append("\n");
    r.append("---\n");
    r.append("\n");
    let ghost header = r@;
    let n = data.payload.records.len();
    let mut i: usize = 0;
    proof {
        assert(data.payload.records@.take(0) =~= Seq::<Record>::empty());
    }
    while i < n
        invariant
            0 <= i <= n,
            n == data.payload.records@.len(),
            forall|j: int|
                0 <= j < data.payload.records@.len() ==> (is_clip(
                    #[trigger] data.payload.records@[j],
                ) ==> clip_ok(data.payload.records@[j])),
            r@ == header + spec_record_blocks(data.payload.records@.take(i as int)),
        decreases n - i,
    {
        let ghost prev = r@;
        proof {
            assert(data.payload.records@.take(i + 1 as int).drop_last()
                =~= data.payload.records@.take(i as int));
            let ghost cur = data.payload.records@[i as int];
            assert(data.payload.records@.take(i + 1 as int).last() == cur);
        }
        let rec = &data.payload.records[i];
        if str_eq(rec.record_type.as_str(), "audible.clip") {
            let block = record_block_md(rec);
            r.append(block.as_str());
            proof {
                assert(r@ =~= header + spec_record_blocks(
                    data.payload.records@.take(i + 1 as int),
                ));
            }
        }
        i += 1;
    }
    proof {
        assert(data.payload.records@.take(n as int) =~= data.payload.records@);
    }
    r
}

/// Whether an optional annotations payload can be rendered: every clip it
/// holds must be well-formed.
pub open spec fn annotations_ok(a: Option<GetAnnotationsResponse>) -> bool {
    match a {
        Some(d) => forall|i: int|
            0 <= i < d.payload.records@.len() ==> (is_clip(#[trigger] d.payload.records@[i])
                ==> clip_ok(d.payload.records@[i])),
        None => true,
    }
}

/// The whole markdown document of one audiobook: the header block, the
/// table of contents, then the annotations section — or a placeholder
/// when no annotations file was found.
pub open spec fn spec_book_md(
    title: Seq<char>,
    c: GetChaptersResponse,
    a: Option<GetAnnotationsResponse>,
    has_pdf: bool,
) -> Seq<char> {
    spec_headers_md(title, c, has_pdf) + "\n"@ + "## Table of Contents\n"@ + "\n"@
        + spec_chapters_md(c.content_metadata.chapter_info.chapters@, ""@) + "\n"@
        + "## Annotations\n"@ + "\n"@ + (match a {
        None => "-\n"@ + "\n"@,
        Some(d) => spec_annotations_md(d),
    })
}

/// Renders the whole markdown document of one audiobook.
pub fn book_md(
    title: &str,
    chapter: &GetChaptersResponse,
    annotation: &Option<GetAnnotationsResponse>,
    has_pdf: bool,
) -> (r: String)
    requires
        annotations_ok(*annotation),
    ensures
        r@ == spec_book_md(title@, *chapter, *annotation, has_pdf),
{
    let mut r = headers_md(title, chapter, has_pdf);
    r.append("\n");
    r.append("## Table of Contents\n");
    r.append("\n");
    let toc = chapters_md(&chapter.content_metadata.chapter_info.chapters, "");
    r.append(toc.as_str());
    r.append("\n");
    r.append("## Annotations\n");
    r.append("\n");
    match annotation {
        None => {
            r.append("-\n");
            r.append("\n");
        },
        Some(d) => {
            let a = annotations_md(d);
            r.append(a.as_str());
        },
    }
    proof {
        assert(r@ =~= spec_book_md(title@, *chapter, *annotation, has_pdf));
    }
    r
}

} // verus!
