//! The archive assembler: registers the rendered entries with the
//! packaging layer in the mandated order and emits the finished
//! archive.
//!
//! The packaging layer is the `epub_builder` crate. Its builder is
//! opaque here; named projections describe the state the contracts
//! need: the spine (the linear reading order, as tuples of entry
//! path, table-of-contents title, page body, title-page flag and toc
//! flag), the registered stylesheet texts, the zip entry names taken
//! so far, and the metadata values registered by key.

use vstd::prelude::*;
use crate::Error;
use crate::fields::{chapter_description, label_of};
use crate::json_types::{Book, BookV, ChapterV};
use crate::render::{
    chapter_text, cover_text, render_chapter, render_cover, render_stylesheet, stylesheet_text,
};
use crate::textutil::{
    dec_str, lemma_dec_str_digits, lemma_dec_str_injective, lemma_dec_str_len,
    lemma_dec_str_len_le, lemma_texts_differ_at, pow10, push_dec_u32,
};

verus! {

/// An in-progress archive. It wraps `epub_builder::EpubBuilder`,
/// which cannot be declared to the verifier directly because its
/// `Zip` bound is private to that crate; the builder is therefore
/// held opaquely and described only through [`epub_spine`],
/// [`epub_styles`], [`epub_paths`] and [`epub_meta`].
#[verifier::external_body]
pub struct ArchiveBuilder {
    inner: epub_builder::EpubBuilder<epub_builder::ZipLibrary>,
}

/// The linear reading order registered so far: for each entry its
/// path, its table-of-contents title, the page text written under its
/// path, whether it is flagged as the title page, and whether it is
/// the internal table-of-contents page.
pub uninterp spec fn epub_spine(b: ArchiveBuilder) -> Seq<(Seq<char>, Seq<char>, Seq<char>, bool, bool)>;

/// The metadata values registered so far, by key: an `author` value
/// accumulates (and an empty one clears), a `title` value replaces.
pub uninterp spec fn epub_meta(b: ArchiveBuilder) -> Map<Seq<char>, Seq<Seq<char>>>;

/// The values a metadata key holds, none registered meaning none.
pub open spec fn meta_values(m: Map<Seq<char>, Seq<Seq<char>>>, k: Seq<char>) -> Seq<Seq<char>> {
    if m.dom().contains(k) {
        m[k]
    } else {
        Seq::empty()
    }
}

/// The stylesheet texts registered so far.
pub uninterp spec fn epub_styles(b: ArchiveBuilder) -> Seq<Seq<char>>;

/// The zip entry names written into the archive so far. The zip layer
/// refuses a second entry under an existing name and, over the
/// in-memory sink, fails for no other reason, so this set decides
/// which registrations succeed.
pub uninterp spec fn epub_paths(b: ArchiveBuilder) -> Set<Seq<char>>;

/// An empty reading order.
pub open spec fn empty_spine() -> Seq<(Seq<char>, Seq<char>, Seq<char>, bool, bool)> {
    Seq::empty()
}

/// No stylesheet registered yet.
pub open spec fn empty_styles() -> Seq<Seq<char>> {
    Seq::empty()
}

/// No metadata registered yet.
pub open spec fn empty_meta() -> Map<Seq<char>, Seq<Seq<char>>> {
    Map::empty()
}

/// The entry names a fresh archive holds: the container scaffolding
/// written at creation.
pub open spec fn fresh_archive_paths() -> Set<Seq<char>> {
    set![
        "mimetype"@,
        "META-INF/container.xml"@,
        "META-INF/com.apple.ibooks.display-options.xml"@,
    ]
}

/// A path the zip layer takes without surprises: ASCII (so its
/// character count is its byte count), free of backslashes (which the
/// zip layer rewrites on some platforms), and short enough that the
/// full entry name, `OEBPS/` included, fits the format's 16-bit name
/// length, whose overflow the zip layer does not check.
pub open spec fn zip_safe_path(p: Seq<char>) -> bool {
    &&& p.len() + 6 < 65536
    &&& forall|k: int| 0 <= k < p.len() ==> (#[trigger] (p[k] as u32)) < 128 && p[k] != '\\'
}

/// The most characters one page may hold: the zip format records a
/// 32-bit byte size per entry and the zip layer refuses anything
/// larger when, as here, no large-file option is set; a character can
/// take four bytes, so this count keeps every page safely under that
/// cap, compression overhead included.
pub const PAGE_CHAR_LIMIT: usize = 0x3F00_0000;

/// The role of a content entry in the reading order.
pub enum EntryKind {
    TitlePage,
    BodyText,
}

/// Relies on `ZipLibrary::new` and `EpubBuilder::new`: a fresh builder
/// has no content entry and no stylesheet; creation writes exactly
/// the mimetype entry and the two container files, under three
/// distinct fixed names, and over the in-memory buffer none of those
/// writes can fail.
#[verifier::external_body]
fn epub_new() -> (r: Result<ArchiveBuilder, Error>)
    ensures
        r is Ok,
        r matches Ok(b) ==> epub_spine(b) == empty_spine() && epub_styles(b) == empty_styles()
            && epub_paths(b) == fresh_archive_paths() && epub_meta(b) == empty_meta(),
{
    match epub_builder::ZipLibrary::new() {
        Err(e) => Err(Error::PackagingError(e.to_string())),
        Ok(z) => match epub_builder::EpubBuilder::new(z) {
            Err(e) => Err(Error::PackagingError(e.to_string())),
            Ok(b) => Ok(ArchiveBuilder { inner: b }),
        },
    }
}

/// Relies on `EpubBuilder::metadata`: the `author` and `title` keys
/// accept any value and only update the metadata record — an author
/// value is appended (an empty one clears the list), a title value
/// replaces — never touching the content entries or resources.
#[verifier::external_body]
fn epub_metadata(
    b: &mut ArchiveBuilder,
    key: &str,
    value: &str,
) -> (r: Result<(), Error>)
    requires
        key@ == "author"@ || key@ == "title"@,
    ensures
        epub_spine(*final(b)) == epub_spine(*old(b)),
        epub_styles(*final(b)) == epub_styles(*old(b)),
        epub_paths(*final(b)) == epub_paths(*old(b)),
        key@ == "author"@ ==> epub_meta(*final(b)) == epub_meta(*old(b)).insert(
            "author"@,
            if value@.len() == 0 {
                Seq::<Seq<char>>::empty()
            } else {
                meta_values(epub_meta(*old(b)), "author"@).push(value@)
            },
        ),
        key@ == "title"@ ==> epub_meta(*final(b)) == epub_meta(*old(b)).insert(
            "title"@,
            seq![value@],
        ),
        r is Ok,
{
    match b.inner.metadata(key, value) {
        Ok(_) => Ok(()),
        Err(e) => Err(Error::PackagingError(e.to_string())),
    }
}

/// Relies on `EpubBuilder::stylesheet`: registers the given text as
/// the `stylesheet.css` resource and leaves the reading order
/// unchanged. Over the in-memory sink the one failure is the zip
/// layer refusing a duplicate entry name, so success is exactly the
/// name being new.
#[verifier::external_body]
fn epub_stylesheet(
    b: &mut ArchiveBuilder,
    css: &str,
) -> (r: Result<(), Error>)
    requires
        css@.len() < PAGE_CHAR_LIMIT,
    ensures
        r is Ok <==> !epub_paths(*old(b)).contains("OEBPS/stylesheet.css"@),
        r is Ok ==> epub_spine(*final(b)) == epub_spine(*old(b)) && epub_styles(*final(b))
            == epub_styles(*old(b)).push(css@) && epub_paths(*final(b)) == epub_paths(
            *old(b),
        ).insert("OEBPS/stylesheet.css"@) && epub_meta(*final(b)) == epub_meta(*old(b)),
        r matches Err(e) ==> e matches Error::PackagingError(_),
{
    match b.inner.stylesheet(css.as_bytes()) {
        Ok(_) => Ok(()),
        Err(e) => Err(Error::PackagingError(e.to_string())),
    }
}

/// Relies on `EpubContent::new`/`title`/`reftype` and
/// `EpubBuilder::add_content`: appends exactly one entry with the
/// given path, table-of-contents title and role to the reading
/// order, written into the zip under `OEBPS/` joined with the path
/// (hence the no-leading-slash precondition; the zip-safety
/// precondition keeps the entry name off the zip layer's unchecked
/// name-length conversion and platform rewriting). Over the
/// in-memory sink the one failure left is the zip layer refusing a
/// duplicate entry name, so success is exactly the name being new.
#[verifier::external_body]
fn epub_add_content(
    b: &mut ArchiveBuilder,
    path: &str,
    body: &str,
    title: &str,
    kind: EntryKind,
) -> (r: Result<(), Error>)
    requires
        path@.len() == 0 || path@[0] != '/',
        zip_safe_path(path@),
        body@.len() < PAGE_CHAR_LIMIT,
    ensures
        r is Ok <==> !epub_paths(*old(b)).contains("OEBPS/"@ + path@),
        r is Ok ==> epub_spine(*final(b)) == epub_spine(*old(b)).push(
            (path@, title@, body@, kind is TitlePage, false),
        ) && epub_styles(*final(b)) == epub_styles(*old(b)) && epub_paths(*final(b))
            == epub_paths(*old(b)).insert("OEBPS/"@ + path@) && epub_meta(*final(b)) == epub_meta(
            *old(b),
        ),
        r matches Err(e) ==> e matches Error::PackagingError(_),
{
    let rt = match kind {
        EntryKind::TitlePage => epub_builder::ReferenceType::TitlePage,
        EntryKind::BodyText => epub_builder::ReferenceType::Text,
    };
    let content = epub_builder::EpubContent::new(path, body.as_bytes()).title(title).reftype(rt);
    match b.inner.add_content(content) {
        Ok(_) => Ok(()),
        Err(e) => Err(Error::PackagingError(e.to_string())),
    }
}

/// Relies on `EpubBuilder::inline_toc`: appends the internal
/// table-of-contents page `toc.xhtml` to the reading order, titled
/// with the builder's current toc name, and touches nothing else;
/// the page itself is written only at generation, so no entry name
/// is taken now.
#[verifier::external_body]
fn epub_inline_toc(b: &mut ArchiveBuilder)
    ensures
        exists|t: Seq<char>, body: Seq<char>|
            epub_spine(*final(b)) == epub_spine(*old(b)).push(("toc.xhtml"@, t, body, false, true)),
        epub_styles(*final(b)) == epub_styles(*old(b)),
        epub_paths(*final(b)) == epub_paths(*old(b)),
        epub_meta(*final(b)) == epub_meta(*old(b)),
{
    b.inner.inline_toc();
}

/// Relies on `EpubBuilder::generate`: serializes the finished archive
/// into the sink, consuming the builder; a finished zip container is
/// never empty, so on success the sink has grown.
#[verifier::external_body]
pub(crate) fn epub_generate(
    b: ArchiveBuilder,
    out: &mut Vec<u8>,
) -> (r: Result<(), Error>)
    ensures
        r is Ok ==> old(out)@.len() < final(out)@.len(),
        r matches Err(e) ==> e matches Error::PackagingError(_),
{
    match b.inner.generate(&mut *out) {
        Ok(_) => Ok(()),
        Err(e) => Err(Error::PackagingError(e.to_string())),
    }
}

/// The archive path of a chapter's page, keyed by its `num` alone.
pub open spec fn chapter_path(n: u32) -> Seq<char> {
    "chapter_"@ + dec_str(n as nat) + ".xhtml"@
}

/// The expected spine entry of one chapter: its path is keyed by the
/// chapter's `num` alone, its title is the label of the chapter, its
/// body is the rendered chapter page, and it is ordinary text
/// content.
pub open spec fn chapter_entry(b: BookV, c: ChapterV) -> (Seq<char>, Seq<char>, Seq<char>, bool, bool) {
    (chapter_path(c.num), label_of(c, b), chapter_text(b, c), false, false)
}

/// What the author metadata holds after registering one author name:
/// an empty name clears, any other is the one entry.
pub open spec fn author_registered(n: Seq<char>) -> Seq<Seq<char>> {
    if n.len() == 0 {
        Seq::empty()
    } else {
        seq![n]
    }
}

/// No two chapters share an ordering key. Entry paths are keyed by
/// `num` alone, so this is exactly what keeps every chapter's path
/// distinct in the archive.
pub open spec fn distinct_chapter_nums(b: BookV) -> bool {
    forall|i: int, j: int|
        0 <= i < j < b.chapters.len() ==> b.chapters[i].num != b.chapters[j].num
}

/// Every rendered page of the book fits one archive entry.
pub open spec fn fits_archive_limits(b: BookV) -> bool {
    &&& cover_text(b).len() < PAGE_CHAR_LIMIT
    &&& forall|i: int|
        0 <= i < b.chapters.len() ==> #[trigger] chapter_text(b, b.chapters[i]).len()
            < PAGE_CHAR_LIMIT
}

/// The zip entry names of the first `i` chapters' pages.
pub open spec fn chapter_paths_upto(b: BookV, i: int) -> Set<Seq<char>> {
    Set::new(
        |p: Seq<char>|
            exists|j: int| 0 <= j < i && p == "OEBPS/"@ + chapter_path(b.chapters[j].num),
    )
}

proof fn lemma_chapter_path_zip_safe(n: u32)
    ensures
        zip_safe_path(chapter_path(n)),
{
    reveal_strlit("chapter_");
    reveal_strlit(".xhtml");
    assert(pow10(0) == 1);
    assert(pow10(1) == 10);
    assert(pow10(2) == 100);
    assert(pow10(3) == 1000);
    assert(pow10(4) == 10000);
    assert(pow10(5) == 100000);
    assert(pow10(6) == 1000000);
    assert(pow10(7) == 10000000);
    assert(pow10(8) == 100000000);
    assert(pow10(9) == 1000000000);
    assert(pow10(10) == 10000000000);
    lemma_dec_str_len_le(n as nat, 10);
    lemma_dec_str_digits(n as nat);
    let d = dec_str(n as nat);
    let p = chapter_path(n);
    assert(p.len() == 8 + d.len() + 6);
    assert forall|k: int| 0 <= k < p.len() implies (#[trigger] (p[k] as u32)) < 128 && p[k]
        != '\\' by {
        if k < 8 {
            assert(p[k] == "chapter_"@[k]);
        } else if k < 8 + d.len() {
            assert(p[k] == d[k - 8]);
            assert(48 <= d[k - 8] as u32 <= 57);
        } else {
            assert(p[k] == ".xhtml"@[k - 8 - d.len()]);
        }
    }
}

proof fn lemma_chapter_zip_path_inj(n1: u32, n2: u32)
    requires
        "OEBPS/"@ + chapter_path(n1) == "OEBPS/"@ + chapter_path(n2),
    ensures
        n1 == n2,
{
    reveal_strlit("OEBPS/");
    reveal_strlit("chapter_");
    reveal_strlit(".xhtml");
    let d1 = dec_str(n1 as nat);
    let d2 = dec_str(n2 as nat);
    assert(("OEBPS/"@ + chapter_path(n1)).len() == 14 + d1.len() + 6);
    assert(("OEBPS/"@ + chapter_path(n2)).len() == 14 + d2.len() + 6);
    assert forall|i: int| 0 <= i < d1.len() implies d1[i] == d2[i] by {
        assert(("OEBPS/"@ + chapter_path(n1))[14 + i] == d1[i]);
        assert(("OEBPS/"@ + chapter_path(n2))[14 + i] == d2[i]);
    }
    assert(d1 =~= d2);
    lemma_dec_str_injective(n1 as nat, n2 as nat);
}

proof fn lemma_chapter_zip_path_fresh(n: u32)
    ensures
        !fresh_archive_paths().contains("OEBPS/"@ + chapter_path(n)),
        "OEBPS/"@ + chapter_path(n) != "OEBPS/stylesheet.css"@,
        "OEBPS/"@ + chapter_path(n) != "OEBPS/title.xhtml"@,
{
    reveal_strlit("OEBPS/");
    reveal_strlit("chapter_");
    reveal_strlit(".xhtml");
    reveal_strlit("mimetype");
    reveal_strlit("META-INF/container.xml");
    reveal_strlit("META-INF/com.apple.ibooks.display-options.xml");
    reveal_strlit("OEBPS/stylesheet.css");
    reveal_strlit("OEBPS/title.xhtml");
    lemma_dec_str_len(n as nat);
    let p = "OEBPS/"@ + chapter_path(n);
    assert(p[0] == 'O');
    assert(p[6] == 'c');
    lemma_texts_differ_at(p, "mimetype"@, 0);
    lemma_texts_differ_at(p, "META-INF/container.xml"@, 0);
    lemma_texts_differ_at(p, "META-INF/com.apple.ibooks.display-options.xml"@, 0);
    lemma_texts_differ_at(p, "OEBPS/stylesheet.css"@, 6);
    lemma_texts_differ_at(p, "OEBPS/title.xhtml"@, 6);
}

proof fn lemma_fixed_paths_distinct()
    ensures
        !fresh_archive_paths().contains("OEBPS/stylesheet.css"@),
        !fresh_archive_paths().contains("OEBPS/title.xhtml"@),
        "OEBPS/title.xhtml"@ != "OEBPS/stylesheet.css"@,
{
    reveal_strlit("mimetype");
    reveal_strlit("META-INF/container.xml");
    reveal_strlit("META-INF/com.apple.ibooks.display-options.xml");
    reveal_strlit("OEBPS/stylesheet.css");
    reveal_strlit("OEBPS/title.xhtml");
    assert("OEBPS/stylesheet.css"@[0] == 'O');
    assert("OEBPS/title.xhtml"@[0] == 'O');
    assert("OEBPS/title.xhtml"@[6] == 't');
    assert("OEBPS/stylesheet.css"@[6] == 's');
    assert("mimetype"@[0] == 'm');
    assert("META-INF/container.xml"@[0] == 'M');
    assert("META-INF/com.apple.ibooks.display-options.xml"@[0] == 'M');
    lemma_texts_differ_at("OEBPS/stylesheet.css"@, "mimetype"@, 0);
    lemma_texts_differ_at("OEBPS/stylesheet.css"@, "META-INF/container.xml"@, 0);
    lemma_texts_differ_at("OEBPS/stylesheet.css"@, "META-INF/com.apple.ibooks.display-options.xml"@, 0);
    lemma_texts_differ_at("OEBPS/title.xhtml"@, "mimetype"@, 0);
    lemma_texts_differ_at("OEBPS/title.xhtml"@, "META-INF/container.xml"@, 0);
    lemma_texts_differ_at("OEBPS/title.xhtml"@, "META-INF/com.apple.ibooks.display-options.xml"@, 0);
    lemma_texts_differ_at("OEBPS/title.xhtml"@, "OEBPS/stylesheet.css"@, 6);
}

proof fn lemma_chapter_paths_step(b: BookV, i: int)
    requires
        0 <= i < b.chapters.len(),
    ensures
        chapter_paths_upto(b, i + 1) =~= chapter_paths_upto(b, i).insert(
            "OEBPS/"@ + chapter_path(b.chapters[i].num),
        ),
{
    let czp = "OEBPS/"@ + chapter_path(b.chapters[i].num);
    assert forall|p: Seq<char>| chapter_paths_upto(b, i + 1).contains(p) implies chapter_paths_upto(
        b,
        i,
    ).insert(czp).contains(p) by {
        let j = choose|j: int| 0 <= j < i + 1 && p == "OEBPS/"@ + chapter_path(b.chapters[j].num);
        if j < i {
            assert(chapter_paths_upto(b, i).contains(p));
        }
    }
    assert forall|p: Seq<char>| chapter_paths_upto(b, i).insert(czp).contains(p) implies
        chapter_paths_upto(b, i + 1).contains(p) by {
        if p == czp {
            assert(0 <= i < i + 1 && p == "OEBPS/"@ + chapter_path(b.chapters[i].num));
        } else {
            let j = choose|j: int| 0 <= j < i && p == "OEBPS/"@ + chapter_path(b.chapters[j].num);
            assert(0 <= j < i + 1 && p == "OEBPS/"@ + chapter_path(b.chapters[j].num));
        }
    }
}

/// The reading order a finished builder must hold for a book: the
/// title page first, flagged as such and holding the rendered cover,
/// the internal table of contents second, then exactly one entry per
/// chapter, in input order, each holding its rendered page.
pub open spec fn spine_matches(b: BookV, sp: Seq<(Seq<char>, Seq<char>, Seq<char>, bool, bool)>) -> bool {
    &&& sp.len() == b.chapters.len() + 2
    &&& sp[0] == ("title.xhtml"@, "Title"@, cover_text(b), true, false)
    &&& sp[1].0 == "toc.xhtml"@
    &&& !sp[1].3
    &&& sp[1].4
    &&& forall|i: int|
        0 <= i < b.chapters.len() ==> sp[i + 2] == chapter_entry(b, b.chapters[i])
}

/// Assembles the archive builder for a book: author and title
/// metadata first, then the stylesheet, the title page, the internal
/// table of contents, and one content entry per chapter in input
/// order. Assembly succeeds whenever no two chapters share an
/// ordering key and every rendered page fits one archive entry; a
/// shared key makes two entries claim one path, which the packaging
/// layer refuses, and an oversized page would overflow the archive
/// format's per-entry size.
pub fn prepare_epub(book: &Book) -> (r: Result<ArchiveBuilder, Error>)
    ensures
        r matches Ok(b) ==> spine_matches(book.deep_view(), epub_spine(b)) && epub_styles(b)
            == seq![stylesheet_text()] && epub_meta(b) == Map::<Seq<char>, Seq<Seq<char>>>::empty(
        ).insert("author"@, author_registered(book.deep_view().author.name)).insert(
            "title"@,
            seq![book.deep_view().title],
        ),
        r matches Err(e) ==> e matches Error::PackagingError(_),
        distinct_chapter_nums(book.deep_view()) && fits_archive_limits(book.deep_view()) ==> r
            is Ok,
{
    let ghost bv = book.deep_view();
    let mut builder = match epub_new() {
        Ok(b) => b,
        Err(e) => {
            return Err(e);
        },
    };
    match epub_metadata(&mut builder, "author", book.author.name.as_str()) {
        Ok(_) => {},
        Err(e) => {
            return Err(e);
        },
    }
    match epub_metadata(&mut builder, "title", book.title.as_str()) {
        Ok(_) => {},
        Err(e) => {
            return Err(e);
        },
    }
    let ghost gm = Map::<Seq<char>, Seq<Seq<char>>>::empty().insert(
        "author"@,
        author_registered(bv.author.name),
    ).insert("title"@, seq![bv.title]);
    proof {
        if bv.author.name.len() != 0 {
            assert(Seq::<Seq<char>>::empty().push(bv.author.name) =~= seq![bv.author.name]);
        }
        assert(epub_meta(builder) == gm);
    }
    let css = render_stylesheet();
    proof {
        lemma_fixed_paths_distinct();
        reveal_strlit(
            "body { font-family: serif; margin: 1em; }\nh1, h2 { text-align: center; }\n.meta { margin: 0.25em 0; }\n.blurb { font-style: italic; }\n",
        );
    }
    match epub_stylesheet(&mut builder, css.as_str()) {
        Ok(_) => {},
        Err(e) => {
            return Err(e);
        },
    }
    let cover = render_cover(book);
    if cover.as_str().unicode_len() >= PAGE_CHAR_LIMIT {
        return Err(
            Error::PackagingError(
                String::from_str("the cover page does not fit one archive entry"),
            ),
        );
    }
    proof {
        reveal_strlit("title.xhtml");
        reveal_strlit("OEBPS/");
        reveal_strlit("OEBPS/title.xhtml");
        assert("title.xhtml"@[0] == 't');
        assert("OEBPS/"@ + "title.xhtml"@ =~= "OEBPS/title.xhtml"@);
        assert(zip_safe_path("title.xhtml"@));
    }
    match epub_add_content(&mut builder, "title.xhtml", cover.as_str(), "Title", EntryKind::TitlePage) {
        Ok(_) => {},
        Err(e) => {
            return Err(e);
        },
    }
    epub_inline_toc(&mut builder);
    let ghost fixedp = fresh_archive_paths().insert("OEBPS/stylesheet.css"@).insert(
        "OEBPS/title.xhtml"@,
    );
    proof {
        assert(chapter_paths_upto(bv, 0) =~= Set::<Seq<char>>::empty());
        assert(epub_paths(builder) =~= fixedp.union(chapter_paths_upto(bv, 0)));
        assert(epub_spine(builder).len() == 2);
        assert(epub_spine(builder)[0] == ("title.xhtml"@, "Title"@, cover_text(bv), true, false));
        assert(epub_spine(builder)[1].0 == "toc.xhtml"@);
        assert(!epub_spine(builder)[1].3);
        assert(epub_spine(builder)[1].4);
        assert(bv.chapters.len() == book.chapters@.len());
    }
    let mut i: usize = 0;
    while i < book.chapters.len()
        invariant
            i <= book.chapters.len(),
            bv == book.deep_view(),
            bv.chapters.len() == book.chapters@.len(),
            epub_styles(builder) == seq![stylesheet_text()],
            epub_paths(builder) == fixedp.union(chapter_paths_upto(bv, i as int)),
            fixedp == fresh_archive_paths().insert("OEBPS/stylesheet.css"@).insert(
                "OEBPS/title.xhtml"@,
            ),
            epub_spine(builder).len() == i + 2,
            epub_spine(builder)[0] == ("title.xhtml"@, "Title"@, cover_text(bv), true, false),
            epub_spine(builder)[1].0 == "toc.xhtml"@,
            !epub_spine(builder)[1].3,
            epub_spine(builder)[1].4,
            epub_meta(builder) == gm,
            forall|j: int|
                0 <= j < i ==> epub_spine(builder)[j + 2] == chapter_entry(bv, bv.chapters[j]),
        decreases book.chapters.len() - i,
    {
        let chapter = &book.chapters[i];
        let body = render_chapter(book, chapter);
        if body.as_str().unicode_len() >= PAGE_CHAR_LIMIT {
            proof {
                assert(chapter.deep_view() == bv.chapters[i as int]);
                assert(!fits_archive_limits(bv));
            }
            return Err(
                Error::PackagingError(
                    String::from_str("a chapter page does not fit one archive entry"),
                ),
            );
        }
        let title = chapter_description(chapter, book);
        let mut path = String::from_str("chapter_");
        push_dec_u32(chapter.num, &mut path);
        path.append(".xhtml");
        proof {
            reveal_strlit("chapter_");
            assert(path@ == chapter_path(chapter.num));
            assert(path@[0] == 'c');
            lemma_chapter_path_zip_safe(chapter.num);
        }
        match epub_add_content(
            &mut builder,
            path.as_str(),
            body.as_str(),
            title.as_str(),
            EntryKind::BodyText,
        ) {
            Ok(_) => {},
            Err(e) => {
                proof {
                    let czp = "OEBPS/"@ + chapter_path(chapter.num);
                    lemma_chapter_zip_path_fresh(chapter.num);
                    assert(chapter_paths_upto(bv, i as int).contains(czp));
                    let j = choose|j: int|
                        0 <= j < i && czp == "OEBPS/"@ + chapter_path(bv.chapters[j].num);
                    lemma_chapter_zip_path_inj(chapter.num, bv.chapters[j].num);
                    assert(chapter.deep_view() == bv.chapters[i as int]);
                    if distinct_chapter_nums(bv) {
                        assert(bv.chapters[j].num != bv.chapters[i as int].num);
                        assert(false);
                    }
                }
                return Err(e);
            },
        }
        proof {
            assert(chapter.deep_view() == bv.chapters[i as int]);
            assert(path@ == "chapter_"@ + dec_str(chapter.num as nat) + ".xhtml"@);
            assert(epub_spine(builder)[i + 2] == chapter_entry(bv, bv.chapters[i as int]));
            lemma_chapter_paths_step(bv, i as int);
            assert(epub_paths(builder) =~= fixedp.union(chapter_paths_upto(bv, i + 1)));
        }
        i = i + 1;
    }
    proof {
        assert(spine_matches(bv, epub_spine(builder)));
    }
    Ok(builder)
}

/// The spine of a well-assembled archive holds exactly one entry per
/// chapter, two entries more than the chapter count in all, with the
/// title page first and every chapter entry in input order under its
/// own path, label and rendered page.
pub proof fn lemma_archive_shape(b: BookV, sp: Seq<(Seq<char>, Seq<char>, Seq<char>, bool, bool)>)
    requires
        spine_matches(b, sp),
    ensures
        sp.len() == b.chapters.len() + 2,
        sp[0].0 == "title.xhtml"@ && sp[0].2 == cover_text(b) && sp[0].3,
        forall|i: int| #![trigger sp[i + 2]]
            0 <= i < b.chapters.len() ==> sp[i + 2].0 == chapter_path(b.chapters[i].num) && sp[i
                + 2].1 == label_of(b.chapters[i], b) && sp[i + 2].2 == chapter_text(
                b,
                b.chapters[i],
            ) && !sp[i + 2].3 && !sp[i + 2].4,
{
}

/// How many entries of a reading order are ordinary text: flagged
/// neither as the title page nor as the table of contents.
pub open spec fn text_entry_count(sp: Seq<(Seq<char>, Seq<char>, Seq<char>, bool, bool)>) -> nat
    decreases sp.len(),
{
    if sp.len() == 0 {
        0
    } else {
        text_entry_count(sp.drop_last()) + (if !sp.last().3 && !sp.last().4 {
            1nat
        } else {
            0nat
        })
    }
}

proof fn lemma_text_count_prefix(b: BookV, sp: Seq<(Seq<char>, Seq<char>, Seq<char>, bool, bool)>, i: int)
    requires
        spine_matches(b, sp),
        0 <= i <= b.chapters.len(),
    ensures
        text_entry_count(sp.take(2 + i)) == i,
    decreases i,
{
    if i == 0 {
        assert(sp.take(2).drop_last() =~= sp.take(1));
        assert(sp.take(2).last() == sp[1]);
        assert(sp.take(1).drop_last() =~= sp.take(0));
        assert(sp.take(1).last() == sp[0]);
        assert(sp.take(0) =~= empty_spine());
        assert(text_entry_count(sp.take(0)) == 0);
        assert(text_entry_count(sp.take(1)) == 0);
        assert(text_entry_count(sp.take(2)) == 0);
    } else {
        lemma_text_count_prefix(b, sp, i - 1);
        assert(sp.take(2 + i).drop_last() =~= sp.take(2 + i - 1));
        assert(sp.take(2 + i).last() == sp[2 + (i - 1)]);
        assert(sp[2 + (i - 1)] == chapter_entry(b, b.chapters[i - 1]));
        assert(!chapter_entry(b, b.chapters[i - 1]).3 && !chapter_entry(b, b.chapters[i - 1]).4);
        assert(text_entry_count(sp.take(2 + i)) == text_entry_count(sp.take(2 + i - 1)) + 1);
    }
}

/// The archive of a book holds exactly one ordinary text entry per
/// chapter: counting the entries that are neither the title page nor
/// the internal table of contents gives the chapter count.
pub proof fn lemma_chapter_entry_count(b: BookV, sp: Seq<(Seq<char>, Seq<char>, Seq<char>, bool, bool)>)
    requires
        spine_matches(b, sp),
    ensures
        text_entry_count(sp) == b.chapters.len(),
{
    lemma_text_count_prefix(b, sp, b.chapters.len() as int);
    assert(sp.take(2 + b.chapters.len() as int) =~= sp);
}

/// A book with no chapters still yields a well-formed archive: the
/// reading order holds exactly the title page and the internal table
/// of contents, and the stylesheet is registered.
pub proof fn lemma_empty_book_archive(
    b: BookV,
    sp: Seq<(Seq<char>, Seq<char>, Seq<char>, bool, bool)>,
    styles: Seq<Seq<char>>,
)
    requires
        spine_matches(b, sp),
        b.chapters.len() == 0,
        styles == seq![crate::render::stylesheet_text()],
    ensures
        sp.len() == 2,
        sp[0].0 == "title.xhtml"@ && sp[0].2 == cover_text(b) && sp[0].3,
        sp[1].0 == "toc.xhtml"@,
        styles.len() == 1,
{
}

} // verus!
