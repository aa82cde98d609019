use json2epub::{build_epub, build_epub_to};
use json2epub::json::book_to_json;
use json2epub::json_types::{Author, Book, Chapter, Metadata};
use json2epub::Error;

fn meta() -> Metadata {
    Metadata {
        category: vec![],
        rating: String::from("K"),
        language: None,
        genre: None,
        characters: None,
        chapters: None,
        words: None,
        status: None,
        reviews: None,
        favs: None,
        follows: None,
    }
}

fn chapter(num: u32, title: &str) -> Chapter {
    Chapter {
        num,
        title: String::from(title),
        url: String::from("u"),
        contents: String::from("<p>text</p>"),
        error: None,
    }
}

fn book(chapters: Vec<Chapter>) -> Book {
    Book {
        id: String::from("id1"),
        source: String::from("src"),
        title: String::from("Title"),
        blurb: String::from("Blurb"),
        author: Author { name: String::from("A"), link: String::from("L") },
        metadata: meta(),
        updated_time: None,
        created_time: 1,
        download_time: 2,
        chapters,
    }
}

fn find(hay: &[u8], needle: &[u8]) -> Option<usize> {
    if needle.is_empty() || hay.len() < needle.len() {
        return None;
    }
    (0..=hay.len() - needle.len()).find(|&i| &hay[i..i + needle.len()] == needle)
}

fn archive_of(b: &Book) -> Vec<u8> {
    build_epub(&book_to_json(b)).expect("conversion must succeed")
}

#[test]
fn archive_holds_each_chapter_entry_in_order() {
    let bytes = archive_of(&book(vec![chapter(1, "One"), chapter(2, "Two"), chapter(7, "Seven")]));
    let p1 = find(&bytes, b"chapter_1.xhtml").expect("first chapter entry");
    let p2 = find(&bytes, b"chapter_2.xhtml").expect("second chapter entry");
    let p7 = find(&bytes, b"chapter_7.xhtml").expect("third chapter entry");
    assert!(p1 < p2 && p2 < p7);
    let pt = find(&bytes, b"title.xhtml").expect("title entry");
    assert!(pt < p1);
}

#[test]
fn archive_holds_title_toc_and_stylesheet_once_each() {
    let bytes = archive_of(&book(vec![chapter(1, "One")]));
    assert!(find(&bytes, b"title.xhtml").is_some());
    assert!(find(&bytes, b"toc.xhtml").is_some());
    assert!(find(&bytes, b"stylesheet.css").is_some());
    assert!(find(&bytes, b"mimetype").is_some());
}

#[test]
fn empty_book_still_yields_openable_archive() {
    let bytes = archive_of(&book(vec![]));
    assert!(bytes.len() > 2);
    assert_eq!(&bytes[0..2], b"PK");
    assert!(find(&bytes, b"application/epub+zip").is_some());
    assert!(find(&bytes, b"title.xhtml").is_some());
    assert!(find(&bytes, b"stylesheet.css").is_some());
    assert!(find(&bytes, b"chapter_").is_none());
}

#[test]
fn duplicate_chapter_numbers_collide_in_the_packaging_layer() {
    // Chapter paths are keyed by `num` alone and are not
    // deduplicated; what happens on a collision is left to the
    // packaging layer, which here rejects the second entry.
    let r = build_epub(&book_to_json(&book(vec![chapter(1, "A"), chapter(1, "B")])));
    match r {
        Err(Error::PackagingError(m)) => assert!(m.contains("chapter_1.xhtml")),
        other => panic!("expected a packaging error, got {:?}", other.map(|_| ())),
    }
}

#[test]
fn build_epub_to_appends_to_the_sink() {
    let b = book(vec![chapter(1, "One")]);
    let mut sink: Vec<u8> = Vec::new();
    build_epub_to(&book_to_json(&b), &mut sink).expect("conversion must succeed");
    assert!(!sink.is_empty());
    assert_eq!(&sink[0..2], b"PK");
}

#[test]
fn malformed_input_surfaces_a_parse_error() {
    let mut sink: Vec<u8> = Vec::new();
    match build_epub_to("not json", &mut sink) {
        Err(Error::ParseError(_)) => {},
        other => panic!("expected a parse error, got {:?}", other.map(|_| ())),
    }
}
