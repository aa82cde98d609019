use json2epub::json::{book_to_json, parse_book};
use json2epub::json_types::{Author, Book, Chapter, Metadata};
use json2epub::Error;

fn full_meta() -> Metadata {
    Metadata {
        category: vec![String::from("a"), String::from("b")],
        rating: String::from("K"),
        language: Some(String::from("English")),
        genre: None,
        characters: Some(String::from("Alice, Bob")),
        chapters: None,
        words: Some(String::from("1200")),
        status: None,
        reviews: None,
        favs: Some(String::from("7")),
        follows: None,
    }
}

fn sample_book() -> Book {
    Book {
        id: String::from("x1"),
        source: String::from("somewhere"),
        title: String::from("A \"Quoted\" Title\\with escapes\n"),
        blurb: String::from("Line one.\tLine two. é ünïcode"),
        author: Author {
            name: String::from("An Author"),
            link: String::from("https://example.com/a?q=1&r=2"),
        },
        metadata: full_meta(),
        updated_time: Some(1700000000),
        created_time: 5,
        download_time: 1234567890,
        chapters: vec![
            Chapter {
                num: 3,
                title: String::from("C"),
                url: String::from("u"),
                contents: String::from("<p>hi</p>"),
                error: None,
            },
            Chapter {
                num: 4,
                title: String::from(""),
                url: String::from("u2"),
                contents: String::from("<p>more</p>"),
                error: Some(String::from("fetch failed")),
            },
        ],
    }
}

fn assert_books_eq(a: &Book, b: &Book) {
    assert_eq!(a.id, b.id);
    assert_eq!(a.source, b.source);
    assert_eq!(a.title, b.title);
    assert_eq!(a.blurb, b.blurb);
    assert_eq!(a.author.name, b.author.name);
    assert_eq!(a.author.link, b.author.link);
    assert_eq!(a.metadata.category, b.metadata.category);
    assert_eq!(a.metadata.rating, b.metadata.rating);
    assert_eq!(a.metadata.language, b.metadata.language);
    assert_eq!(a.metadata.genre, b.metadata.genre);
    assert_eq!(a.metadata.characters, b.metadata.characters);
    assert_eq!(a.metadata.chapters, b.metadata.chapters);
    assert_eq!(a.metadata.words, b.metadata.words);
    assert_eq!(a.metadata.status, b.metadata.status);
    assert_eq!(a.metadata.reviews, b.metadata.reviews);
    assert_eq!(a.metadata.favs, b.metadata.favs);
    assert_eq!(a.metadata.follows, b.metadata.follows);
    assert_eq!(a.updated_time, b.updated_time);
    assert_eq!(a.created_time, b.created_time);
    assert_eq!(a.download_time, b.download_time);
    assert_eq!(a.chapters.len(), b.chapters.len());
    for (ca, cb) in a.chapters.iter().zip(b.chapters.iter()) {
        assert_eq!(ca.num, cb.num);
        assert_eq!(ca.title, cb.title);
        assert_eq!(ca.url, cb.url);
        assert_eq!(ca.contents, cb.contents);
        assert_eq!(ca.error, cb.error);
    }
}

#[test]
fn serializer_produces_exact_canonical_text() {
    let b = Book {
        id: String::from("x1"),
        source: String::from("src"),
        title: String::from("T"),
        blurb: String::from("B"),
        author: Author { name: String::from("A"), link: String::from("L") },
        metadata: Metadata {
            category: vec![String::from("a"), String::from("b")],
            rating: String::from("K"),
            language: None,
            genre: Some(String::from("G")),
            characters: None,
            chapters: None,
            words: None,
            status: None,
            reviews: None,
            favs: None,
            follows: None,
        },
        updated_time: None,
        created_time: 5,
        download_time: 1234567890,
        chapters: vec![Chapter {
            num: 3,
            title: String::from("C"),
            url: String::from("u"),
            contents: String::from("<p>hi</p>"),
            error: None,
        }],
    };
    let expected = "{\"id\":\"x1\",\"source\":\"src\",\"title\":\"T\",\"blurb\":\"B\",\"author\":{\"name\":\"A\",\"link\":\"L\"},\"metadata\":{\"category\":[\"a\",\"b\"],\"rating\":\"K\",\"genre\":\"G\"},\"created_time\":5,\"download_time\":1234567890,\"chapters\":[{\"num\":3,\"title\":\"C\",\"url\":\"u\",\"contents\":\"<p>hi</p>\"}]}";
    assert_eq!(book_to_json(&b), expected);
}

#[test]
fn round_trip_preserves_every_field() {
    let b = sample_book();
    let text = book_to_json(&b);
    let b2 = parse_book(&text).expect("serialized book must parse back");
    assert_books_eq(&b, &b2);
}

#[test]
fn round_trip_with_empty_book() {
    let mut b = sample_book();
    b.chapters = vec![];
    b.metadata.category = vec![];
    b.updated_time = None;
    let text = book_to_json(&b);
    let b2 = parse_book(&text).expect("empty book must parse back");
    assert_books_eq(&b, &b2);
}

#[test]
fn parse_tolerates_whitespace_and_unknown_fields() {
    let text = "{\n  \"id\": \"i\",\n  \"extra\": [1, {\"q\": true}, null, false],\n  \"source\": \"s\", \"title\": \"t\", \"blurb\": \"b\",\n  \"author\": {\"name\": \"n\", \"link\": \"l\", \"more\": 3},\n  \"metadata\": {\"category\": [], \"rating\": \"K\"},\n  \"created_time\": 1, \"download_time\": 2,\n  \"chapters\": []\n}\n";
    let b = parse_book(text).expect("well-formed input must parse");
    assert_eq!(b.id, "i");
    assert_eq!(b.chapters.len(), 0);
    assert_eq!(b.updated_time, None);
    assert_eq!(b.metadata.genre, None);
}

#[test]
fn parse_decodes_escapes_and_unicode() {
    let text = "{\"id\":\"a\\\"b\\\\c\\nd\\u0041\",\"source\":\"s\",\"title\":\"t\",\"blurb\":\"b\",\"author\":{\"name\":\"n\",\"link\":\"l\"},\"metadata\":{\"category\":[],\"rating\":\"K\"},\"created_time\":1,\"download_time\":2,\"chapters\":[]}";
    let b = parse_book(text).expect("escapes must parse");
    assert_eq!(b.id, "a\"b\\c\ndA");
}

#[test]
fn parse_rejects_missing_required_field() {
    let text = "{\"id\":\"i\",\"source\":\"s\",\"blurb\":\"b\",\"author\":{\"name\":\"n\",\"link\":\"l\"},\"metadata\":{\"category\":[],\"rating\":\"K\"},\"created_time\":1,\"download_time\":2,\"chapters\":[]}";
    assert!(matches!(parse_book(text), Err(Error::ParseError(_))));
}

#[test]
fn parse_rejects_wrong_type() {
    let text = "{\"id\":\"i\",\"source\":\"s\",\"title\":\"t\",\"blurb\":\"b\",\"author\":{\"name\":\"n\",\"link\":\"l\"},\"metadata\":{\"category\":[],\"rating\":\"K\"},\"created_time\":\"1\",\"download_time\":2,\"chapters\":[]}";
    assert!(matches!(parse_book(text), Err(Error::ParseError(_))));
}

#[test]
fn parse_rejects_number_out_of_range() {
    let text = "{\"id\":\"i\",\"source\":\"s\",\"title\":\"t\",\"blurb\":\"b\",\"author\":{\"name\":\"n\",\"link\":\"l\"},\"metadata\":{\"category\":[],\"rating\":\"K\"},\"created_time\":4294967296,\"download_time\":2,\"chapters\":[]}";
    assert!(matches!(parse_book(text), Err(Error::ParseError(_))));
}

#[test]
fn parse_rejects_trailing_text() {
    let text = "{\"id\":\"i\",\"source\":\"s\",\"title\":\"t\",\"blurb\":\"b\",\"author\":{\"name\":\"n\",\"link\":\"l\"},\"metadata\":{\"category\":[],\"rating\":\"K\"},\"created_time\":1,\"download_time\":2,\"chapters\":[]} x";
    assert!(matches!(parse_book(text), Err(Error::ParseError(_))));
}

#[test]
fn parse_rejects_malformed_text() {
    assert!(matches!(parse_book("not a book"), Err(Error::ParseError(_))));
    assert!(matches!(parse_book(""), Err(Error::ParseError(_))));
    assert!(matches!(parse_book("{\"id\":"), Err(Error::ParseError(_))));
}

#[test]
fn parse_rejects_surrogate_escape() {
    let text = "{\"id\":\"\\uD834\",\"source\":\"s\",\"title\":\"t\",\"blurb\":\"b\",\"author\":{\"name\":\"n\",\"link\":\"l\"},\"metadata\":{\"category\":[],\"rating\":\"K\"},\"created_time\":1,\"download_time\":2,\"chapters\":[]}";
    assert!(matches!(parse_book(text), Err(Error::ParseError(_))));
}

#[test]
fn parse_reads_null_optionals_as_absent() {
    let text = "{\"id\":\"i\",\"source\":\"s\",\"title\":\"t\",\"blurb\":\"b\",\"author\":{\"name\":\"n\",\"link\":\"l\"},\"metadata\":{\"category\":[],\"rating\":\"K\",\"genre\":null},\"updated_time\":null,\"created_time\":1,\"download_time\":2,\"chapters\":[]}";
    let b = parse_book(text).expect("null optionals are legal");
    assert_eq!(b.metadata.genre, None);
    assert_eq!(b.updated_time, None);
}

#[test]
fn error_message_is_not_empty() {
    match parse_book("{{") {
        Err(e) => assert!(!e.message().is_empty()),
        Ok(_) => panic!("malformed input must not parse"),
    }
}

#[test]
fn parse_ignores_unknown_fields_with_arbitrary_numbers() {
    let text = "{\"id\":\"i\",\"float\":1.5,\"neg\":-12,\"exp\":6.02e23,\"big\":99999999999999,\"source\":\"s\",\"title\":\"t\",\"blurb\":\"b\",\"author\":{\"name\":\"n\",\"link\":\"l\"},\"metadata\":{\"category\":[],\"rating\":\"K\"},\"created_time\":1,\"download_time\":2,\"chapters\":[]}";
    let b = parse_book(text).expect("unknown members may hold any number");
    assert_eq!(b.id, "i");
}

#[test]
fn parse_rejects_float_in_typed_field() {
    let text = "{\"id\":\"i\",\"source\":\"s\",\"title\":\"t\",\"blurb\":\"b\",\"author\":{\"name\":\"n\",\"link\":\"l\"},\"metadata\":{\"category\":[],\"rating\":\"K\"},\"created_time\":1.5,\"download_time\":2,\"chapters\":[]}";
    assert!(matches!(parse_book(text), Err(Error::ParseError(_))));
}

#[test]
fn parse_decodes_surrogate_pair_escape() {
    let text = "{\"id\":\"x\\uD83D\\uDE00y\",\"source\":\"s\",\"title\":\"t\",\"blurb\":\"b\",\"author\":{\"name\":\"n\",\"link\":\"l\"},\"metadata\":{\"category\":[],\"rating\":\"K\"},\"created_time\":1,\"download_time\":2,\"chapters\":[]}";
    let b = parse_book(text).expect("surrogate pairs decode");
    assert_eq!(b.id, "x\u{1F600}y");
}

#[test]
fn parse_rejects_lone_low_surrogate_escape() {
    let text = "{\"id\":\"\\uDC00\",\"source\":\"s\",\"title\":\"t\",\"blurb\":\"b\",\"author\":{\"name\":\"n\",\"link\":\"l\"},\"metadata\":{\"category\":[],\"rating\":\"K\"},\"created_time\":1,\"download_time\":2,\"chapters\":[]}";
    assert!(matches!(parse_book(text), Err(Error::ParseError(_))));
}
