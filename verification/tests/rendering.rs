use json2epub::render::{render_chapter, render_cover, render_stylesheet};
use json2epub::json_types::{Author, Book, Chapter, Metadata};

fn meta() -> Metadata {
    Metadata {
        category: vec![String::from("Adventure"), String::from("Mystery")],
        rating: String::from("K"),
        language: Some(String::from("English")),
        genre: None,
        characters: None,
        chapters: None,
        words: None,
        status: None,
        reviews: None,
        favs: None,
        follows: None,
    }
}

fn book() -> Book {
    Book {
        id: String::from("id1"),
        source: String::from("src"),
        title: String::from("The <Great> Tale"),
        blurb: String::from("A story of \"everything\" & more"),
        author: Author { name: String::from("A. Writer"), link: String::from("http://a.example") },
        metadata: meta(),
        updated_time: None,
        created_time: 0,
        download_time: 86400,
        chapters: vec![
            Chapter {
                num: 1,
                title: String::from("One"),
                url: String::from("u1"),
                contents: String::from("<p>raw <b>markup</b> stays</p>"),
                error: None,
            },
            Chapter {
                num: 2,
                title: String::from(""),
                url: String::from("u2"),
                contents: String::from("<p>second</p>"),
                error: Some(String::from("partial fetch")),
            },
        ],
    }
}

#[test]
fn rendering_twice_is_byte_identical() {
    let b = book();
    assert_eq!(render_cover(&b), render_cover(&b));
    assert_eq!(render_chapter(&b, &b.chapters[0]), render_chapter(&b, &b.chapters[0]));
    assert_eq!(render_stylesheet(), render_stylesheet());
}

#[test]
fn stylesheet_is_fixed_text() {
    let css = render_stylesheet();
    assert!(css.contains("font-family"));
    assert!(css.contains(".blurb"));
}

#[test]
fn cover_escapes_text_fields() {
    let cover = render_cover(&book());
    assert!(cover.contains("The &lt;Great&gt; Tale"));
    assert!(cover.contains("A story of &quot;everything&quot; &amp; more"));
    assert!(!cover.contains("The <Great> Tale"));
}

#[test]
fn cover_shows_present_metadata_and_dates() {
    let cover = render_cover(&book());
    assert!(cover.contains("Category: Adventure, Mystery"));
    assert!(cover.contains("Rating: K"));
    assert!(cover.contains("Language: English"));
    assert!(cover.contains("Published: 1970-01-01"));
    assert!(cover.contains("Downloaded: 1970-01-02"));
    assert!(cover.contains("A. Writer"));
}

#[test]
fn absent_genre_renders_without_placeholder() {
    let cover = render_cover(&book());
    assert!(!cover.contains("Genre"));
    assert!(!cover.contains("None"));
    assert!(!cover.contains("null"));
}

#[test]
fn present_genre_renders_with_its_value() {
    let mut b = book();
    b.metadata.genre = Some(String::from("Fantasy"));
    let cover = render_cover(&b);
    assert!(cover.contains("Genre: Fantasy"));
}

#[test]
fn absent_updated_time_renders_no_updated_line() {
    let cover = render_cover(&book());
    assert!(!cover.contains("Updated:"));
}

#[test]
fn present_updated_time_renders_updated_line() {
    let mut b = book();
    b.updated_time = Some(86400 * 2);
    let cover = render_cover(&b);
    assert!(cover.contains("Updated: 1970-01-03"));
}

#[test]
fn chapter_page_embeds_contents_raw_and_escapes_label() {
    let b = book();
    let page = render_chapter(&b, &b.chapters[0]);
    assert!(page.contains("<p>raw <b>markup</b> stays</p>"));
    assert!(page.contains("Chapter 1: One"));
    assert!(page.contains("stylesheet.css"));
}

#[test]
fn chapter_fetch_error_is_noted() {
    let b = book();
    let page = render_chapter(&b, &b.chapters[1]);
    assert!(page.contains("Error: partial fetch"));
    let ok_page = render_chapter(&b, &b.chapters[0]);
    assert!(!ok_page.contains("Error:"));
}
