use ncli::html::HtmlError;
use ncli::kindle::annotation::{Annotation, AnnotationList};
use ncli::record::{Book, BookLibrary};

// The following sample HTML is taken from the original structure of Kindle notebook with some modifications
// on identification values to avoid potential security issues. Hence, the values in this HTML string are actually
// invalid and should not be considered to have any meaning.
const SAMPLE_BOOK_HTML: &str = r#"
    <div id="kp-notebook-library" class="a-row">
        <div id="ABCDEFGHIJ" class="a-row kp-notebook-library-each-book a-color-base-background">
            <span class="a-declarative" data-action="get-annotations-for-asin" data-csa-c-type="widget" data-csa-c-func-deps="aui-da-get-annotations-for-asin" data-get-annotations-for-asin="{&quot;asin&quot;:&quot;ABCDEFGHIJ&quot;}" data-csa-c-id="abc123-123abc-abcdef-fedcba">
                <a class="a-link-normal a-text-normal" href="javascript:void(0);">
                    <div class="a-row">
                        <div class="a-column a-span4 a-push4 a-spacing-medium a-spacing-top-medium">
                            <img alt="" src="https://m.media-amazon.com/images/I/12ab34ef56g._XY789.jpg" class="kp-notebook-cover-image kp-notebook-cover-image-border">
                        </div>
                    </div>
                    <h2 class="a-size-base a-color-base a-text-center kp-notebook-searchable a-text-bold">
                        Title A: Subtitle A
                    </h2>
                    <p class="a-spacing-base a-spacing-top-mini a-text-center a-size-base a-color-secondary kp-notebook-searchable">
                        By: Author A
                    </p>
                </a>
            </span>
            <input type="hidden" name="" value="Sunday January 30, 2022" id="kp-notebook-annotated-date-ABCDEFGHIJ">
        </div>
        <div id="ABCDEFGHIK" class="a-row kp-notebook-library-each-book">
            <span class="a-declarative" data-action="get-annotations-for-asin" data-csa-c-type="widget" data-csa-c-func-deps="aui-da-get-annotations-for-asin" data-get-annotations-for-asin="{&quot;asin&quot;:&quot;ABCDEFGHIK&quot;}" data-csa-c-id="abc123-123abc-abcdef-fedcbx">
                <a class="a-link-normal a-text-normal" href="javascript:void(0);">
                    <div class="a-row">
                        <div class="a-column a-span4 a-push4 a-spacing-medium a-spacing-top-medium">
                            <img alt="" src="https://m.media-amazon.com/images/I/12ab34ef56g._XY987.jpg" class="kp-notebook-cover-image kp-notebook-cover-image-border">
                        </div>
                    </div>
                    <h2 class="a-size-base a-color-base a-text-center kp-notebook-searchable a-text-bold">
                        Title B
                    </h2>
                    <p class="a-spacing-base a-spacing-top-mini a-text-center a-size-base a-color-secondary kp-notebook-searchable">
                        By: Author B
                    </p>
                </a>
            </span>
            <input type="hidden" name="" value="Sunday January 30, 2022" id="kp-notebook-annotated-date-ABCDEFGHIK">
        </div>
        <input type="hidden" name="" class="kp-notebook-library-next-page-start">
    </div>
"#;

#[test]
fn book_parse_library() {
    let parsed_library = BookLibrary::from_html(SAMPLE_BOOK_HTML).expect("unable to parse html");
    let expected_library = BookLibrary {
        books: vec![
            Book {
                asin: "ABCDEFGHIJ".into(),
                title: "Title A".into(),
                subtitle: Some("Subtitle A".into()),
                author: "Author A".into(),
                image_url: "https://m.media-amazon.com/images/I/12ab34ef56g._XY789.jpg".into(),
                last_opened_date: "Sunday January 30, 2022".into(),
            },
            Book {
                asin: "ABCDEFGHIK".into(),
                title: "Title B".into(),
                subtitle: None,
                author: "Author B".into(),
                image_url: "https://m.media-amazon.com/images/I/12ab34ef56g._XY987.jpg".into(),
                last_opened_date: "Sunday January 30, 2022".into(),
            },
        ],
    };

    assert_eq!(parsed_library, expected_library);
}

// The following sample HTML is taken from the original structure of Kindle notebook with some modifications
// on identification values to avoid potential security issues. Hence, the values in this HTML string are actually
// invalid and should not be considered to have any meaning.
const SAMPLE_ANNOTATION_HTML: &str = r#"
    <div id="kp-notebook-annotations" class="a-row"><input type="hidden" name="" value="REDACTED" class="kp-notebook-content-limit-state"><input type="hidden" name="" class="kp-notebook-annotations-next-page-start">
        <div id="REDACTED" class="a-row a-spacing-base">
            <div class="a-column a-span10 kp-notebook-row-separator">
                <div class="a-row"><input type="hidden" name="" value="1024" id="kp-annotation-location">
                    <div class="a-column a-span8">
                        <span id="annotationHighlightHeader" class="a-size-small a-color-secondary kp-notebook-selectable kp-notebook-metadata">Yellow highlight | Page:&nbsp;32</span>
                        <span id="annotationNoteHeader" class="a-size-small a-color-secondary aok-hidden kp-notebook-selectable kp-notebook-metadata">Note | Page:&nbsp;32</span>
                    </div>
                    <div class="a-column a-span4 a-text-right a-span-last"><span class="a-declarative" data-action="a-popover" data-csa-c-type="widget" data-csa-c-func-deps="aui-da-a-popover" data-a-popover="{&quot;closeButton&quot;:&quot;false&quot;,&quot;closeButtonLabel&quot;:&quot;Close&quot;,&quot;activate&quot;:&quot;onclick&quot;,&quot;width&quot;:&quot;200&quot;,&quot;name&quot;:&quot;optionsPopover&quot;,&quot;position&quot;:&quot;triggerVerticalAlignLeft&quot;,&quot;popoverLabel&quot;:&quot;Options for annotations at Page 32&quot;}" id="popover-REDACTED-action"><a id="popover-REDACTED" href="javascript:void(0)" role="button" class="a-popover-trigger a-declarative">Options<i class="a-icon a-icon-popover"></i></a></span></div>
                </div>
                <div class="a-row a-spacing-top-medium">
                    <div class="a-column a-span10 a-spacing-small kp-notebook-print-override">
                        <div id="highlight-REDACTED" class="a-row kp-notebook-highlight kp-notebook-selectable kp-notebook-highlight-yellow"><span id="highlight" class="a-size-base-plus a-color-base">Highlight</span>
                            <div></div>
                        </div>
                        <div id="note-" class="a-row a-spacing-top-base kp-notebook-note aok-hidden kp-notebook-selectable"><span id="note-label" class="a-size-small a-color-secondary">Note:<span class="a-letter-space"></span></span><span id="note" class="a-size-base-plus a-color-base"></span></div>
                    </div>
                </div>
            </div>
        </div>
        <div id="REDACTED" class="a-row a-spacing-base">
            <div class="a-column a-span10 kp-notebook-row-separator">
                <div class="a-row"><input type="hidden" name="" value="2048" id="kp-annotation-location">
                    <div class="a-column a-span8">
                        <span id="annotationNoteHeader" class="a-size-small a-color-secondary kp-notebook-selectable kp-notebook-metadata">Note | Page:&nbsp;64</span></div>
                    <div class="a-column a-span4 a-text-right a-span-last"><span class="a-declarative" data-action="a-popover" data-csa-c-type="widget" data-csa-c-func-deps="aui-da-a-popover" data-a-popover="{&quot;closeButton&quot;:&quot;false&quot;,&quot;closeButtonLabel&quot;:&quot;Close&quot;,&quot;activate&quot;:&quot;onclick&quot;,&quot;width&quot;:&quot;200&quot;,&quot;name&quot;:&quot;optionsPopover&quot;,&quot;position&quot;:&quot;triggerVerticalAlignLeft&quot;,&quot;popoverLabel&quot;:&quot;Options for annotations at Page 64&quot;}" id="popover-REDACTED-action"><a id="popover-REDACTED" href="javascript:void(0)" role="button" class="a-popover-trigger a-declarative">Options<i class="a-icon a-icon-popover"></i></a></span></div>
                </div>
                <div class="a-row a-spacing-top-medium">
                    <div class="a-column a-span10 a-spacing-small kp-notebook-print-override">
                        <div id="note-REDACTED" class="a-row kp-notebook-note kp-notebook-selectable"><span id="note" class="a-size-base-plus a-color-base">Note</span></div>
                    </div>
                </div>
            </div>
        </div>
        <div id="REDACTED" class="a-row a-spacing-base">
            <div class="a-column a-span10 kp-notebook-row-separator">
                <div class="a-row"><input type="hidden" name="" value="4096" id="kp-annotation-location">
                    <div class="a-column a-span8">
                        <span id="annotationHighlightHeader" class="a-size-small a-color-secondary kp-notebook-selectable kp-notebook-metadata">Yellow highlight | Page:&nbsp;128</span>
                        <span id="annotationNoteHeader" class="a-size-small a-color-secondary aok-hidden kp-notebook-selectable kp-notebook-metadata">Note | Page:&nbsp;128</span>
                    </div>
                    <div class="a-column a-span4 a-text-right a-span-last"><span class="a-declarative" data-action="a-popover" data-csa-c-type="widget" data-csa-c-func-deps="aui-da-a-popover" data-a-popover="{&quot;closeButton&quot;:&quot;false&quot;,&quot;closeButtonLabel&quot;:&quot;Close&quot;,&quot;activate&quot;:&quot;onclick&quot;,&quot;width&quot;:&quot;200&quot;,&quot;name&quot;:&quot;optionsPopover&quot;,&quot;position&quot;:&quot;triggerVerticalAlignLeft&quot;,&quot;popoverLabel&quot;:&quot;Options for annotations at Page 128&quot;}" id="popover-REDACTED-action"><a id="popover-REDACTED" href="javascript:void(0)" role="button" class="a-popover-trigger a-declarative">Options<i class="a-icon a-icon-popover"></i></a></span></div>
                </div>
                <div class="a-row a-spacing-top-medium">
                    <div class="a-column a-span10 a-spacing-small kp-notebook-print-override">
                        <div id="highlight-REDACTED" class="a-row kp-notebook-highlight kp-notebook-selectable kp-notebook-highlight-yellow"><span id="highlight" class="a-size-base-plus a-color-base">Highlight</span>
                            <div></div>
                        </div>
                        <div id="note-REDACTED" class="a-row a-spacing-top-base kp-notebook-note kp-notebook-selectable"><span id="note-label" class="a-size-small a-color-secondary">Note:<span class="a-letter-space"></span></span><span id="note" class="a-size-base-plus a-color-base">Note</span></div>
                    </div>
                </div>
            </div>
        </div>
        <div id="empty-annotations-pane" class="a-row aok-hidden">
            <div class="a-column a-span6 a-push3">
                <div class="a-box a-spacing-top-extra-large a-box-normal a-color-base-background a-text-center">
                    <div class="a-box-inner">
                        <div class="a-row a-spacing-large a-spacing-top-medium">
                            <div class="a-column a-span4 a-push4">
                                <img alt="" src="img/Note_icon.png" class="kp-notebook-cover-image" height="44">
                            </div>
                        </div>
                        <p class="a-spacing-medium a-size-medium a-text-bold"> Would you like to take some notes?</p>
                        <span>You havenâ€™t created any notes for this book yet. You can add or remove bookmarks, highlights, and notes at any location in a Kindle book.</span>
                        <div class="a-row a-spacing-extra-large a-spacing-top-medium"><a class="a-link-emphasis" target="_blank" rel="noopener" href="https://www.amazon.com/b/?node=11627044011&amp;ref=k4w_ms_ynh_empty"> Learn more about notes and highlights</a></div>
                    </div>
                </div>
            </div>
        </div>
    </div>
"#;

#[test]
fn annotation_parse_library() {
    let parsed_list =
        AnnotationList::from_html(SAMPLE_ANNOTATION_HTML).expect("unable to parse html");
    let expected_list = AnnotationList {
        annotations: vec![
            // Only highlight
            Annotation {
                highlight: Some("Highlight".into()),
                highlight_color: Some("Yellow".into()),
                note: None,
                page: Some(32),
                location: 1024,
            },
            // Only note
            Annotation {
                highlight: None,
                highlight_color: None,
                note: Some("Note".into()),
                page: Some(64),
                location: 2048,
            },
            // Highlight and note
            Annotation {
                highlight: Some("Highlight".into()),
                highlight_color: Some("Yellow".into()),
                note: Some("Note".into()),
                page: Some(128),
                location: 4096,
            },
        ],
    };

    assert_eq!(parsed_list, expected_list);
}

#[test]
fn book_missing_asin() {
    assert_eq!(Book::from_html("<p>x</p>"), Err(HtmlError::MissingAsin));
}

#[test]
fn book_missing_title() {
    assert_eq!(Book::from_html(r#"<div id="X"></div>"#), Err(HtmlError::MissingTitle));
}

#[test]
fn book_missing_author() {
    // No p element at all.
    assert_eq!(
        Book::from_html(r#"<div id="X"><h2>T</h2></div>"#),
        Err(HtmlError::MissingAuthor)
    );
    // A p element without the "By:" separator.
    assert_eq!(
        Book::from_html(r#"<div id="X"><h2>T</h2><p>Author</p></div>"#),
        Err(HtmlError::MissingAuthor)
    );
}

#[test]
fn book_missing_image() {
    assert_eq!(
        Book::from_html(r#"<div id="X"><h2>T</h2><p>By: A</p></div>"#),
        Err(HtmlError::MissingImage)
    );
}

#[test]
fn book_missing_date() {
    assert_eq!(
        Book::from_html(r#"<div id="X"><h2>T</h2><p>By: A</p><img src="U"></div>"#),
        Err(HtmlError::MissingDate)
    );
}

#[test]
fn annotation_missing_highlight_header() {
    assert_eq!(
        Annotation::from_html(r#"<span id="highlight">H</span>"#),
        Err(HtmlError::MissingHighlightHeader)
    );
}

#[test]
fn annotation_malformed_header() {
    assert_eq!(
        Annotation::from_html(
            r#"<span id="highlight">H</span><span id="annotationHighlightHeader">Yellow highlight</span>"#
        ),
        Err(HtmlError::MalformedHeader)
    );
}

#[test]
fn annotation_bad_page_number() {
    assert_eq!(
        Annotation::from_html(
            r#"<span id="highlight">H</span><span id="annotationHighlightHeader">Yellow highlight | Page:&nbsp;99999999999</span>"#
        ),
        Err(HtmlError::BadNumber)
    );
}

#[test]
fn annotation_missing_note() {
    assert_eq!(Annotation::from_html("<p>x</p>"), Err(HtmlError::MissingNote));
}

#[test]
fn annotation_missing_note_header() {
    assert_eq!(
        Annotation::from_html(r#"<span id="note">N</span>"#),
        Err(HtmlError::MissingNoteHeader)
    );
}

#[test]
fn annotation_missing_location() {
    assert_eq!(
        Annotation::from_html(
            r#"<span id="note">N</span><span id="annotationNoteHeader">Note | Location:&nbsp;7</span>"#
        ),
        Err(HtmlError::MissingLocation)
    );
}

#[test]
fn annotation_bad_location() {
    assert_eq!(
        Annotation::from_html(
            r#"<span id="note"></span><input id="kp-annotation-location" value="abc">"#
        ),
        Err(HtmlError::BadNumber)
    );
}
