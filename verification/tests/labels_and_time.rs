use json2epub::fields::{chapter_description, format_epoch_time};
use json2epub::json_types::{Author, Book, Chapter, Metadata};

fn meta() -> Metadata {
    Metadata {
        category: vec![],
        rating: String::from("K"),
        language: None,
        genre: None,
        characters: None,
        chapters: None,
        words: None,
        status: None,
        reviews: None,
        favs: None,
        follows: None,
    }
}

fn chapter(num: u32, title: &str) -> Chapter {
    Chapter {
        num,
        title: String::from(title),
        url: String::from("http://example.com/c"),
        contents: String::from("<p>text</p>"),
        error: None,
    }
}

fn book_with(title: &str, chapters: Vec<Chapter>) -> Book {
    Book {
        id: String::from("id1"),
        source: String::from("src"),
        title: String::from(title),
        blurb: String::from("blurb"),
        author: Author { name: String::from("An Author"), link: String::from("http://a") },
        metadata: meta(),
        updated_time: None,
        created_time: 0,
        download_time: 0,
        chapters,
    }
}

#[test]
fn single_untitled_chapter_uses_book_title() {
    let b = book_with("My Short Story", vec![chapter(1, "")]);
    assert_eq!(chapter_description(&b.chapters[0], &b), "My Short Story");
}

#[test]
fn untitled_chapter_in_longer_book_gets_number_label() {
    let b = book_with("A Book", vec![chapter(3, ""), chapter(4, "Else")]);
    assert_eq!(chapter_description(&b.chapters[0], &b), "Chapter 3");
}

#[test]
fn titled_chapter_gets_number_and_title() {
    let b = book_with("A Book", vec![chapter(1, "x"), chapter(5, "Awakening")]);
    assert_eq!(chapter_description(&b.chapters[1], &b), "Chapter 5: Awakening");
}

#[test]
fn titled_single_chapter_keeps_its_own_title() {
    let b = book_with("A Book", vec![chapter(2, "Named")]);
    assert_eq!(chapter_description(&b.chapters[0], &b), "Chapter 2: Named");
}

#[test]
fn epoch_zero_formats_to_unix_epoch_date() {
    assert_eq!(format_epoch_time(0, "%Y-%m-%d"), Some(String::from("1970-01-01")));
}

#[test]
fn epoch_time_with_clock_pattern() {
    assert_eq!(
        format_epoch_time(90061, "%Y-%m-%d %H:%M:%S"),
        Some(String::from("1970-01-02 01:01:01"))
    );
}

#[test]
fn far_future_timestamp_degrades_to_absent() {
    assert_eq!(format_epoch_time(9_000_000_000_000, "%Y-%m-%d"), None);
}

#[test]
fn far_past_timestamp_degrades_to_absent() {
    assert_eq!(format_epoch_time(-9_000_000_000_000, "%Y-%m-%d"), None);
}
