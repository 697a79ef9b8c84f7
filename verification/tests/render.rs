use ncli::index::ExportIndex;
use ncli::kindle::annotation::{Annotation, AnnotationList};
use ncli::kindle::export::{export_data_to_markdown, markdown_file_name};
use ncli::record::Book;
use ncli::store::escape_toml;

fn sample_book() -> Book {
    Book {
        asin: "B1".into(),
        title: "T".into(),
        subtitle: None,
        author: "A".into(),
        image_url: "U".into(),
        last_opened_date: "D".into(),
    }
}

#[test]
fn markdown_header_only() {
    let book = sample_book();
    let md = export_data_to_markdown(&book, &AnnotationList { annotations: vec![] });
    assert_eq!(
        md,
        "---\nasin: B1\ntitle: T\nauthor: A\nimage_url: U\nlast_opened_date: D\n\n---\n"
    );
}

#[test]
fn markdown_subtitle_line() {
    let mut book = sample_book();
    book.subtitle = Some("S".into());
    let md = export_data_to_markdown(&book, &AnnotationList { annotations: vec![] });
    assert_eq!(
        md,
        "---\nasin: B1\ntitle: T\nsubtitle: S\nauthor: A\nimage_url: U\nlast_opened_date: D\n\n---\n"
    );
}

#[test]
fn markdown_full_annotation() {
    let book = sample_book();
    let list = AnnotationList {
        annotations: vec![Annotation {
            highlight: Some("H".into()),
            highlight_color: Some("Yellow".into()),
            note: Some("N".into()),
            page: Some(32),
            location: 1024,
        }],
    };
    let md = export_data_to_markdown(&book, &list);
    let expected = "---\nasin: B1\ntitle: T\nauthor: A\nimage_url: U\nlast_opened_date: D\n\n---\n\n---\n**Yellow highlight:**\n> H\n\n**Note:**\nN\n\n**Page:**\n32\n\n**Link:**\n[Kindle App](kindle://book?action=open&asin=B1&location=1024)\n\n---\n";
    assert_eq!(md, expected);
}

#[test]
fn markdown_note_only_annotation() {
    let book = sample_book();
    let list = AnnotationList {
        annotations: vec![Annotation {
            highlight: None,
            highlight_color: None,
            note: Some("N".into()),
            page: None,
            location: 7,
        }],
    };
    let md = export_data_to_markdown(&book, &list);
    let expected = "---\nasin: B1\ntitle: T\nauthor: A\nimage_url: U\nlast_opened_date: D\n\n---\n\n---\n**Note:**\nN\n\n**Link:**\n[Kindle App](kindle://book?action=open&asin=B1&location=7)\n\n---\n";
    assert_eq!(md, expected);
}

#[test]
fn markdown_file_naming() {
    assert_eq!(markdown_file_name("Title B"), "Title B.md");
}

#[test]
fn toml_escaping() {
    assert_eq!(escape_toml("plain"), "plain");
    assert_eq!(escape_toml("a\"b"), "a\\\"b");
    assert_eq!(escape_toml("a\\b"), "a\\\\b");
    assert_eq!(escape_toml("a\nb\tc"), "a\\nb\\tc");
    assert_eq!(escape_toml("a\u{1}b"), "a\\u0001b");
    assert_eq!(escape_toml("a\u{7f}b"), "a\\u007Fb");
}

#[test]
fn index_toml_exact() {
    let index = ExportIndex::from_entries(vec![(
        "2022-01-01".to_string(),
        Book {
            asin: "A1".into(),
            title: "T\"1".into(),
            subtitle: Some("S".into()),
            author: "Au".into(),
            image_url: "I".into(),
            last_opened_date: "D".into(),
        },
    )]);
    let expected = "[[books]]\nlast_updated_time = \"2022-01-01\"\n[books.info]\nasin = \"A1\"\ntitle = \"T\\\"1\"\nsubtitle = \"S\"\nauthor = \"Au\"\nimage_url = \"I\"\nlast_opened_date = \"D\"\n\n";
    assert_eq!(index.to_toml_string(), expected);
}

#[test]
fn empty_index_toml() {
    assert_eq!(ExportIndex::new_empty().to_toml_string(), "");
}

#[test]
fn index_toml_parses_back() {
    // The rendered document must be readable by a real TOML parser, with
    // every field intact, the order kept, and the checked marker absent.
    let index = ExportIndex::from_entries(vec![
        (
            "Wed, 26 Jan 2022 21:15:25 +0800".to_string(),
            Book {
                asin: "A1".into(),
                title: "Quote \" Backslash \\ Newline \n End".into(),
                subtitle: None,
                author: "Au1".into(),
                image_url: "https://example.invalid/1.jpg".into(),
                last_opened_date: "Sunday January 30, 2022".into(),
            },
        ),
        (
            "Thu, 27 Jan 2022 08:00:00 +0800".to_string(),
            Book {
                asin: "A2".into(),
                title: "T2".into(),
                subtitle: Some("S2".into()),
                author: "Au2".into(),
                image_url: "https://example.invalid/2.jpg".into(),
                last_opened_date: "Monday January 31, 2022".into(),
            },
        ),
    ]);
    let text = index.to_toml_string();
    let value: toml::Value = toml::from_str(&text).expect("rendered index must parse");
    let books = value.get("books").unwrap().as_array().unwrap();
    assert_eq!(books.len(), 2);
    let first = &books[0];
    assert_eq!(
        first.get("last_updated_time").unwrap().as_str().unwrap(),
        "Wed, 26 Jan 2022 21:15:25 +0800"
    );
    let info = first.get("info").unwrap();
    assert_eq!(info.get("asin").unwrap().as_str().unwrap(), "A1");
    assert_eq!(
        info.get("title").unwrap().as_str().unwrap(),
        "Quote \" Backslash \\ Newline \n End"
    );
    assert!(info.get("subtitle").is_none());
    assert!(first.get("checked").is_none());
    let second = &books[1];
    let info2 = second.get("info").unwrap();
    assert_eq!(info2.get("subtitle").unwrap().as_str().unwrap(), "S2");
    assert_eq!(info2.get("last_opened_date").unwrap().as_str().unwrap(), "Monday January 31, 2022");
}
