use ncli::audible::api::{
    Chapter, ChapterInfo, ContentMetadata, ContentReference, GetAnnotationsPayload,
    GetAnnotationsResponse, GetChaptersResponse, LastPositionHeard, Record, RecordMetadata,
};
use ncli::audible::export::{
    annotations_md, book_md, chapters_md, classify_source_file, empty_book_entry,
    group_book_files, headers_md, parse_annotations, records_well_formed, SourceFile,
    SourceFileKind,
};

fn source_file(stem: &str, ext: &str, path: &str) -> SourceFile {
    SourceFile { stem: stem.into(), extension: ext.into(), path: path.into() }
}

#[test]
fn classify_by_extension_and_stem() {
    let (k, t) = classify_source_file("My Book-chapters", "json");
    assert_eq!(k, SourceFileKind::Chapters);
    assert_eq!(t, "My Book");
    let (k, t) = classify_source_file("My Book-annotations", "json");
    assert_eq!(k, SourceFileKind::Annotations);
    assert_eq!(t, "My Book");
    let (k, t) = classify_source_file("My Book", "pdf");
    assert_eq!(k, SourceFileKind::Pdf);
    assert_eq!(t, "My Book");
    let (k, _) = classify_source_file("My Book", "json");
    assert_eq!(k, SourceFileKind::Unrecognized);
    let (k, _) = classify_source_file("My Book-chapters", "txt");
    assert_eq!(k, SourceFileKind::Unrecognized);
}

#[test]
fn grouping_by_title() {
    let files = vec![
        source_file("B1-chapters", "json", "/src/B1-chapters.json"),
        source_file("B2-chapters", "json", "/src/B2-chapters.json"),
        source_file("B1-annotations", "json", "/src/B1-annotations.json"),
        source_file("B1", "pdf", "/src/B1.pdf"),
        source_file("notes", "txt", "/src/notes.txt"),
    ];
    let grouped = group_book_files(&files);
    assert_eq!(grouped.len(), 2);
    assert_eq!(grouped[0].0, "B1");
    assert_eq!(grouped[0].1.chapter.as_deref(), Some("/src/B1-chapters.json"));
    assert_eq!(grouped[0].1.annotation.as_deref(), Some("/src/B1-annotations.json"));
    assert_eq!(grouped[0].1.pdf.as_deref(), Some("/src/B1.pdf"));
    assert_eq!(grouped[1].0, "B2");
    assert_eq!(grouped[1].1.chapter.as_deref(), Some("/src/B2-chapters.json"));
    assert_eq!(grouped[1].1.annotation, None);
    assert_eq!(grouped[1].1.pdf, None);
}

#[test]
fn empty_entry_has_no_files() {
    let e = empty_book_entry();
    assert!(e.chapter.is_none() && e.annotation.is_none() && e.pdf.is_none());
}

fn clip(start: &str, end: &str, note: Option<&str>) -> Record {
    Record {
        record_type: "audible.clip".into(),
        start_position: start.into(),
        creation_time: "2022-01-01T00:00:00Z".into(),
        annotation_id: Some("id1".into()),
        last_modification_time: Some("2022-01-02T00:00:00Z".into()),
        end_position: Some(end.into()),
        metadata: note.map(|n| RecordMetadata { note: Some(n.into()), c_version: "2".into() }),
        text: None,
    }
}

fn last_heard() -> Record {
    Record {
        record_type: "audible.last_heard".into(),
        start_position: "500".into(),
        creation_time: "2022-01-01T00:00:00Z".into(),
        annotation_id: None,
        last_modification_time: None,
        end_position: None,
        metadata: None,
        text: None,
    }
}

#[test]
fn clips_extracted_in_order() {
    let records = vec![last_heard(), clip("10", "20", Some("first")), clip("30", "40", None)];
    assert!(records_well_formed(&records));
    let anns = parse_annotations(&records);
    assert_eq!(anns.len(), 2);
    assert_eq!(anns[0].start_position, 10);
    assert_eq!(anns[0].end_position, 20);
    assert_eq!(anns[0].creation_time, "2022-01-01T00:00:00Z");
    assert_eq!(anns[0].annotation_id, "id1");
    assert_eq!(anns[0].last_modification_time, "2022-01-02T00:00:00Z");
    assert_eq!(anns[0].note.as_deref(), Some("first"));
    assert_eq!(anns[0].note_version, Some(2));
    assert_eq!(anns[1].start_position, 30);
    assert_eq!(anns[1].note, None);
    assert_eq!(anns[1].note_version, None);
}

#[test]
fn malformed_clip_detected() {
    let bad_start = clip("ten", "20", None);
    assert!(!records_well_formed(&vec![bad_start]));
    let mut bad_end = clip("10", "20", None);
    bad_end.end_position = None;
    assert!(!records_well_formed(&vec![bad_end]));
    // Non-clip records need no positions.
    assert!(records_well_formed(&vec![last_heard()]));
}

fn chapters_response(last_heard: Option<&str>) -> GetChaptersResponse {
    GetChaptersResponse {
        content_metadata: ContentMetadata {
            chapter_info: ChapterInfo {
                brand_intro_duration_ms: 0,
                brand_outro_duration_ms: 0,
                chapters: vec![Chapter {
                    title: "C1".into(),
                    length_ms: 100,
                    start_offset_ms: 0,
                    start_offset_sec: 0,
                    chapters: Some(vec![Chapter {
                        title: "C2".into(),
                        length_ms: 50,
                        start_offset_ms: 5,
                        start_offset_sec: 0,
                        chapters: None,
                    }]),
                }],
                is_accurate: true,
                runtime_length_ms: 100,
                runtime_length_sec: 1,
            },
            content_reference: ContentReference {
                acr: "".into(),
                asin: "AS".into(),
                codec: "".into(),
                content_format: "".into(),
                content_size_in_bytes: 0,
                file_version: "".into(),
                marketplace: "".into(),
                sku: "".into(),
                tempo: "".into(),
                version: "".into(),
            },
            last_position_heard: LastPositionHeard {
                status: if last_heard.is_some() { "Exists".into() } else { "DoesNotExist".into() },
                last_updated: last_heard.map(|s| s.to_string()),
                position_ms: None,
            },
        },
        response_groups: vec![],
    }
}

#[test]
fn audiobook_headers() {
    let md = headers_md("T", &chapters_response(Some("LH")), true);
    assert_eq!(md, "---\nasin: AS\ntitle: T\nlast_heard: LH\n\n---\n\nPDF: [link](./T.pdf)\n\n---\n\n");
    let md = headers_md("T", &chapters_response(None), false);
    assert_eq!(md, "---\nasin: AS\ntitle: T\nlast_heard: -\n\n---\n\n");
}

#[test]
fn chapter_tree_indentation() {
    let r = chapters_response(None);
    let md = chapters_md(&r.content_metadata.chapter_info.chapters, "");
    assert_eq!(
        md,
        "- C1   |   [start: 0, duration: 100]\n  - C2   |   [start: 5, duration: 50]\n"
    );
}

#[test]
fn annotations_section() {
    let data = GetAnnotationsResponse {
        md5: "M".into(),
        payload: GetAnnotationsPayload {
            content_type: "t".into(),
            records: vec![last_heard(), clip("10", "20", Some("NT"))],
            acr: None,
            key: "k".into(),
            guid: "g".into(),
        },
    };
    let md = annotations_md(&data);
    let expected = "version (md5): M\n\n---\n\n**Created:** 2022-01-01T00:00:00Z\n\n**Last modified:** 2022-01-01T00:00:00Z\n\n**Clip range:** [10, 20]\n\n**Note:** NT\n\n---\n\n";
    assert_eq!(md, expected);
}

#[test]
fn whole_audiobook_document() {
    let md = book_md("T", &chapters_response(None), &None, false);
    let expected = "---\nasin: AS\ntitle: T\nlast_heard: -\n\n---\n\n\n## Table of Contents\n\n- C1   |   [start: 0, duration: 100]\n  - C2   |   [start: 5, duration: 50]\n\n## Annotations\n\n-\n\n";
    assert_eq!(md, expected);
}
