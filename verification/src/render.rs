//! The content renderer: produces the stylesheet, the cover page and
//! the chapter pages as finished text.
//!
//! Rendering is pure: the same book always yields the same text, and
//! every page is pinned to a specification-level text so that the
//! assembler's contracts can speak about what each entry holds. Text
//! fields are HTML-escaped; a chapter's `contents` is pre-rendered
//! markup and is embedded as it stands.

use vstd::prelude::*;
use crate::json_types::{Book, BookV, Chapter, ChapterV};
use crate::textutil::{esc_text, lemma_append_assoc, push_escaped};
use crate::fields::{label_of, formatted_time, chapter_description, format_epoch_time};

verus! {

/// The static stylesheet shipped with every archive.
pub open spec fn stylesheet_text() -> Seq<char> {
    "body { font-family: serif; margin: 1em; }\nh1, h2 { text-align: center; }\n.meta { margin: 0.25em 0; }\n.blurb { font-style: italic; }\n"@
}

/// Renders the global stylesheet. Needs no document context.
pub fn render_stylesheet() -> (r: String)
    ensures
        r@ == stylesheet_text(),
{
    String::from_str(
        "body { font-family: serif; margin: 1em; }\nh1, h2 { text-align: center; }\n.meta { margin: 0.25em 0; }\n.blurb { font-style: italic; }\n",
    )
}

/// One metadata line of the cover: omitted entirely when the field is
/// absent, never a placeholder.
pub open spec fn meta_line(label: Seq<char>, v: Option<Seq<char>>) -> Seq<char> {
    match v {
        Option::None => Seq::empty(),
        Option::Some(s) => "<p class=\"meta\">"@ + label + ": "@ + esc_text(s) + "</p>\n"@,
    }
}

/// One date line of the cover: omitted when the timestamp cannot be
/// formatted.
pub open spec fn date_line(label: Seq<char>, secs: int) -> Seq<char> {
    match formatted_time(secs, "%Y-%m-%d"@) {
        Option::None => Seq::empty(),
        Option::Some(d) => "<p class=\"meta\">"@ + label + ": "@ + d + "</p>\n"@,
    }
}

/// The categories joined with a comma and a space.
pub open spec fn join_comma(xs: Seq<Seq<char>>) -> Seq<char>
    decreases xs.len(),
{
    if xs.len() == 0 {
        Seq::empty()
    } else if xs.len() == 1 {
        xs[0]
    } else {
        join_comma(xs.drop_last()) + ", "@ + xs.last()
    }
}

/// The category line of the cover: omitted when the list is empty.
pub open spec fn category_line(xs: Seq<Seq<char>>) -> Seq<char> {
    if xs.len() == 0 {
        Seq::empty()
    } else {
        "<p class=\"meta\">Category: "@ + esc_text(join_comma(xs)) + "</p>\n"@
    }
}

/// The opening of the cover page, through the author line.
pub open spec fn cover_head(b: BookV) -> Seq<char> {
    "<?xml version=\"1.0\" encoding=\"UTF-8\"?>\n<html xmlns=\"http://www.w3.org/1999/xhtml\">\n<head>\n<title>"@
        + esc_text(b.title)
        + "</title>\n<link rel=\"stylesheet\" type=\"text/css\" href=\"stylesheet.css\"/>\n</head>\n<body>\n<h1>"@
        + esc_text(b.title) + "</h1>\n<p class=\"meta\">by <a href=\""@ + esc_text(b.author.link)
        + "\">"@ + esc_text(b.author.name) + "</a></p>\n"@
}

/// The metadata block of the cover page.
pub open spec fn cover_meta(b: BookV) -> Seq<char> {
    category_line(b.metadata.category) + meta_line("Rating"@, Option::Some(b.metadata.rating))
        + meta_line("Language"@, b.metadata.language) + meta_line("Genre"@, b.metadata.genre)
        + meta_line("Characters"@, b.metadata.characters) + meta_line(
        "Chapters"@,
        b.metadata.chapters,
    ) + meta_line("Words"@, b.metadata.words) + meta_line("Status"@, b.metadata.status)
        + meta_line("Reviews"@, b.metadata.reviews) + meta_line("Favorites"@, b.metadata.favs)
        + meta_line("Follows"@, b.metadata.follows) + date_line("Published"@, b.created_time as int)
        + (match b.updated_time {
        Option::None => Seq::<char>::empty(),
        Option::Some(u) => date_line("Updated"@, u as int),
    }) + date_line("Downloaded"@, b.download_time as int)
}

/// The closing of the cover page, holding the blurb.
pub open spec fn cover_tail(b: BookV) -> Seq<char> {
    "<h2>Summary</h2>\n<p class=\"blurb\">"@ + esc_text(b.blurb) + "</p>\n</body>\n</html>\n"@
}

/// The finished cover page for a book.
pub open spec fn cover_text(b: BookV) -> Seq<char> {
    cover_head(b) + cover_meta(b) + cover_tail(b)
}

fn push_meta_line(label: &str, v: &Option<String>, out: &mut String)
    ensures
        final(out)@ == old(out)@ + meta_line(label@, v.deep_view()),
{
    match v {
        Option::None => {
            proof {
                assert(old(out)@ + meta_line(label@, v.deep_view()) =~= old(out)@);
            }
        },
        Option::Some(s) => {
            out.append("<p class=\"meta\">");
            out.append(label);
            out.append(": ");
            push_escaped(s.as_str(), out);
            out.append("</p>\n");
            proof {
                assert(out@ =~= old(out)@ + meta_line(label@, v.deep_view()));
            }
        },
    }
}

fn push_date_line(label: &str, secs: u32, out: &mut String)
    ensures
        final(out)@ == old(out)@ + date_line(label@, secs as int),
{
    match format_epoch_time(secs as i64, "%Y-%m-%d") {
        Option::None => {
            proof {
                assert(old(out)@ + date_line(label@, secs as int) =~= old(out)@);
            }
        },
        Option::Some(d) => {
            out.append("<p class=\"meta\">");
            out.append(label);
            out.append(": ");
            out.append(d.as_str());
            out.append("</p>\n");
            proof {
                assert(out@ =~= old(out)@ + date_line(label@, secs as int));
            }
        },
    }
}

fn push_category_line(cat: &Vec<String>, out: &mut String)
    ensures
        final(out)@ == old(out)@ + category_line(cat.deep_view()),
{
    if cat.len() == 0 {
        proof {
            assert(old(out)@ + category_line(cat.deep_view()) =~= old(out)@);
        }
        return ;
    }
    let mut joined = String::new();
    let mut i: usize = 0;
    while i < cat.len()
        invariant
            i <= cat.len(),
            joined@ == join_comma(cat.deep_view().take(i as int)),
        decreases cat.len() - i,
    {
        if i > 0 {
            joined.append(", ");
        }
        joined.append(cat[i].as_str());
        proof {
            let cs = cat.deep_view();
            assert(cs.take(i + 1).drop_last() =~= cs.take(i as int));
            assert(cs.take(i + 1).last() == cs[i as int]);
            assert(cat[i as int].deep_view() == cs[i as int]);
            if i == 0 {
                assert(joined@ =~= join_comma(cs.take(i + 1)));
            } else {
                assert(joined@ =~= join_comma(cs.take(i + 1)));
            }
        }
        i = i + 1;
    }
    proof {
        assert(cat.deep_view().take(cat.len() as int) =~= cat.deep_view());
    }
    out.append("<p class=\"meta\">Category: ");
    push_escaped(joined.as_str(), out);
    out.append("</p>\n");
    proof {
        assert(out@ =~= old(out)@ + category_line(cat.deep_view()));
    }
}

/// Renders the cover page of a book: title, author, blurb, metadata.
#[verifier::rlimit(100)]
pub fn render_cover(book: &Book) -> (r: String)
    ensures
        r@ == cover_text(book.deep_view()),
{
    let ghost bv = book.deep_view();
    let mut out = String::from_str(
        "<?xml version=\"1.0\" encoding=\"UTF-8\"?>\n<html xmlns=\"http://www.w3.org/1999/xhtml\">\n<head>\n<title>",
    );
    push_escaped(book.title.as_str(), &mut out);
    out.append(
        "</title>\n<link rel=\"stylesheet\" type=\"text/css\" href=\"stylesheet.css\"/>\n</head>\n<body>\n<h1>",
    );
    push_escaped(book.title.as_str(), &mut out);
    out.append("</h1>\n<p class=\"meta\">by <a href=\"");
    push_escaped(book.author.link.as_str(), &mut out);
    out.append("\">");
    push_escaped(book.author.name.as_str(), &mut out);
    out.append("</a></p>\n");
    proof {
        assert(out@ == cover_head(bv));
    }
    push_category_line(&book.metadata.category, &mut out);
    push_meta_line("Rating", &Some(book.metadata.rating.clone()), &mut out);
    push_meta_line("Language", &book.metadata.language, &mut out);
    push_meta_line("Genre", &book.metadata.genre, &mut out);
    push_meta_line("Characters", &book.metadata.characters, &mut out);
    push_meta_line("Chapters", &book.metadata.chapters, &mut out);
    push_meta_line("Words", &book.metadata.words, &mut out);
    push_meta_line("Status", &book.metadata.status, &mut out);
    push_meta_line("Reviews", &book.metadata.reviews, &mut out);
    push_meta_line("Favorites", &book.metadata.favs, &mut out);
    push_meta_line("Follows", &book.metadata.follows, &mut out);
    push_date_line("Published", book.created_time, &mut out);
    match &book.updated_time {
        Option::None => {},
        Option::Some(u) => {
            push_date_line("Updated", *u, &mut out);
        },
    }
    push_date_line("Downloaded", book.download_time, &mut out);
    proof {
        let h = cover_head(bv);
        let m1 = category_line(bv.metadata.category);
        let m2 = meta_line("Rating"@, Option::Some(bv.metadata.rating));
        let m3 = meta_line("Language"@, bv.metadata.language);
        let m4 = meta_line("Genre"@, bv.metadata.genre);
        let m5 = meta_line("Characters"@, bv.metadata.characters);
        let m6 = meta_line("Chapters"@, bv.metadata.chapters);
        let m7 = meta_line("Words"@, bv.metadata.words);
        let m8 = meta_line("Status"@, bv.metadata.status);
        let m9 = meta_line("Reviews"@, bv.metadata.reviews);
        let m10 = meta_line("Favorites"@, bv.metadata.favs);
        let m11 = meta_line("Follows"@, bv.metadata.follows);
        let m12 = date_line("Published"@, bv.created_time as int);
        let m13 = match bv.updated_time {
            Option::None => Seq::<char>::empty(),
            Option::Some(u) => date_line("Updated"@, u as int),
        };
        let m14 = date_line("Downloaded"@, bv.download_time as int);
        if bv.updated_time is None {
            assert(out@ == h + m1 + m2 + m3 + m4 + m5 + m6 + m7 + m8 + m9 + m10 + m11 + m12
                + m13 + m14) by {
                assert((h + m1 + m2 + m3 + m4 + m5 + m6 + m7 + m8 + m9 + m10 + m11 + m12) + m13
                    =~= h + m1 + m2 + m3 + m4 + m5 + m6 + m7 + m8 + m9 + m10 + m11 + m12);
            }
        }
        lemma_append_assoc(h, m1, m2);
        lemma_append_assoc(h, m1 + m2, m3);
        lemma_append_assoc(h, m1 + m2 + m3, m4);
        lemma_append_assoc(h, m1 + m2 + m3 + m4, m5);
        lemma_append_assoc(h, m1 + m2 + m3 + m4 + m5, m6);
        lemma_append_assoc(h, m1 + m2 + m3 + m4 + m5 + m6, m7);
        lemma_append_assoc(h, m1 + m2 + m3 + m4 + m5 + m6 + m7, m8);
        lemma_append_assoc(h, m1 + m2 + m3 + m4 + m5 + m6 + m7 + m8, m9);
        lemma_append_assoc(h, m1 + m2 + m3 + m4 + m5 + m6 + m7 + m8 + m9, m10);
        lemma_append_assoc(h, m1 + m2 + m3 + m4 + m5 + m6 + m7 + m8 + m9 + m10, m11);
        lemma_append_assoc(h, m1 + m2 + m3 + m4 + m5 + m6 + m7 + m8 + m9 + m10 + m11, m12);
        lemma_append_assoc(h, m1 + m2 + m3 + m4 + m5 + m6 + m7 + m8 + m9 + m10 + m11 + m12, m13);
        lemma_append_assoc(
            h,
            m1 + m2 + m3 + m4 + m5 + m6 + m7 + m8 + m9 + m10 + m11 + m12 + m13,
            m14,
        );
        assert(cover_meta(bv) == m1 + m2 + m3 + m4 + m5 + m6 + m7 + m8 + m9 + m10 + m11 + m12 + m13
            + m14);
        assert(out@ == cover_head(bv) + cover_meta(bv));
    }
    out.append("<h2>Summary</h2>\n<p class=\"blurb\">");
    push_escaped(book.blurb.as_str(), &mut out);
    out.append("</p>\n</body>\n</html>\n");
    proof {
        let x = cover_head(bv) + cover_meta(bv);
        let t1 = "<h2>Summary</h2>\n<p class=\"blurb\">"@;
        let e = esc_text(bv.blurb);
        let t2 = "</p>\n</body>\n</html>\n"@;
        lemma_append_assoc(x, t1, e);
        lemma_append_assoc(x, t1 + e, t2);
        assert(out@ == cover_text(bv));
    }
    out
}

/// Rendering is deterministic: any two cover renders of the same
/// book, and any two page renders of the same chapter of it, are
/// byte-identical, because every render equals the one
/// specification-level text of its inputs and nothing else enters.
pub proof fn lemma_rendering_deterministic(
    b: BookV,
    c: ChapterV,
    cover1: Seq<char>,
    cover2: Seq<char>,
    page1: Seq<char>,
    page2: Seq<char>,
)
    requires
        cover1 == cover_text(b),
        cover2 == cover_text(b),
        page1 == chapter_text(b, c),
        page2 == chapter_text(b, c),
    ensures
        cover1 == cover2,
        page1 == page2,
{
}

/// An absent optional metadata field contributes nothing at all to
/// the cover: no line, no label, no placeholder.
pub proof fn lemma_absent_field_renders_nothing(label: Seq<char>, v: Option<Seq<char>>)
    requires
        v is None,
    ensures
        meta_line(label, v) == Seq::<char>::empty(),
{
}

/// The note shown when a chapter failed to fetch upstream.
pub open spec fn error_note(e: Option<Seq<char>>) -> Seq<char> {
    match e {
        Option::None => Seq::empty(),
        Option::Some(m) => "<p class=\"meta\">Error: "@ + esc_text(m) + "</p>\n"@,
    }
}

/// The finished page for one chapter: its label as heading, the
/// fetch-error note if any, and the pre-rendered body as it stands.
pub open spec fn chapter_text(b: BookV, c: ChapterV) -> Seq<char> {
    "<?xml version=\"1.0\" encoding=\"UTF-8\"?>\n<html xmlns=\"http://www.w3.org/1999/xhtml\">\n<head>\n<title>"@
        + esc_text(label_of(c, b))
        + "</title>\n<link rel=\"stylesheet\" type=\"text/css\" href=\"stylesheet.css\"/>\n</head>\n<body>\n<h2>"@
        + esc_text(label_of(c, b)) + "</h2>\n"@ + error_note(c.error) + c.contents
        + "</body>\n</html>\n"@
}

/// Renders the page of one chapter of a book.
pub fn render_chapter(book: &Book, chapter: &Chapter) -> (r: String)
    ensures
        r@ == chapter_text(book.deep_view(), chapter.deep_view()),
{
    let ghost bv = book.deep_view();
    let ghost cv = chapter.deep_view();
    let label = chapter_description(chapter, book);
    let mut out = String::new();
    out.append(
        "<?xml version=\"1.0\" encoding=\"UTF-8\"?>\n<html xmlns=\"http://www.w3.org/1999/xhtml\">\n<head>\n<title>",
    );
    push_escaped(label.as_str(), &mut out);
    out.append(
        "</title>\n<link rel=\"stylesheet\" type=\"text/css\" href=\"stylesheet.css\"/>\n</head>\n<body>\n<h2>",
    );
    push_escaped(label.as_str(), &mut out);
    out.append("</h2>\n");
    match &chapter.error {
        Option::None => {},
        Option::Some(m) => {
            out.append("<p class=\"meta\">Error: ");
            push_escaped(m.as_str(), &mut out);
            out.append("</p>\n");
        },
    }
    proof {
        assert(out@ =~= "<?xml version=\"1.0\" encoding=\"UTF-8\"?>\n<html xmlns=\"http://www.w3.org/1999/xhtml\">\n<head>\n<title>"@
            + esc_text(label_of(cv, bv))
            + "</title>\n<link rel=\"stylesheet\" type=\"text/css\" href=\"stylesheet.css\"/>\n</head>\n<body>\n<h2>"@
            + esc_text(label_of(cv, bv)) + "</h2>\n"@ + error_note(cv.error));
    }
    out.append(chapter.contents.as_str());
    out.append("</body>\n</html>\n");
    proof {
        assert(out@ =~= chapter_text(bv, cv));
    }
    out
}

} // verus!
