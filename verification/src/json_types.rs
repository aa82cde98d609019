//! The document model: a book with its author, metadata and chapters.
//!
//! These types are pure data. A `Book` is built once by parsing and is
//! read-only thereafter; the order of `chapters` is the authoritative
//! reading order and is never re-sorted.

use vstd::prelude::*;

verus! {

/// The author of a book: a display name and a link to their page.
#[derive(Debug)]
pub struct Author {
    pub name: String,
    pub link: String,
}

/// Descriptive metadata of a book. Every field but `category` and
/// `rating` is optional; an absent field renders as omitted output,
/// never as a placeholder.
#[derive(Debug)]
pub struct Metadata {
    pub category: Vec<String>,
    pub rating: String,
    pub language: Option<String>,
    pub genre: Option<String>,
    pub characters: Option<String>,
    pub chapters: Option<String>,
    pub words: Option<String>,
    pub status: Option<String>,
    pub reviews: Option<String>,
    pub favs: Option<String>,
    pub follows: Option<String>,
}

/// One chapter. `num` is an ordering key used only for the entry path
/// and the fallback label; it does not reorder chapters. `contents` is
/// pre-rendered body markup. `error` is set when the chapter failed to
/// fetch upstream.
#[derive(Debug)]
pub struct Chapter {
    pub num: u32,
    pub title: String,
    pub url: String,
    pub contents: String,
    pub error: Option<String>,
}

/// A whole book: identity, author, metadata, timestamps (epoch
/// seconds) and the ordered chapter list.
#[derive(Debug)]
pub struct Book {
    pub id: String,
    pub source: String,
    pub title: String,
    pub blurb: String,
    pub author: Author,
    pub metadata: Metadata,
    pub updated_time: Option<u32>,
    pub created_time: u32,
    pub download_time: u32,
    pub chapters: Vec<Chapter>,
}

/// Mathematical model of an [`Author`].
pub ghost struct AuthorV {
    pub name: Seq<char>,
    pub link: Seq<char>,
}

/// Mathematical model of a [`Metadata`].
pub ghost struct MetadataV {
    pub category: Seq<Seq<char>>,
    pub rating: Seq<char>,
    pub language: Option<Seq<char>>,
    pub genre: Option<Seq<char>>,
    pub characters: Option<Seq<char>>,
    pub chapters: Option<Seq<char>>,
    pub words: Option<Seq<char>>,
    pub status: Option<Seq<char>>,
    pub reviews: Option<Seq<char>>,
    pub favs: Option<Seq<char>>,
    pub follows: Option<Seq<char>>,
}

/// Mathematical model of a [`Chapter`].
pub ghost struct ChapterV {
    pub num: u32,
    pub title: Seq<char>,
    pub url: Seq<char>,
    pub contents: Seq<char>,
    pub error: Option<Seq<char>>,
}

/// Mathematical model of a [`Book`].
pub ghost struct BookV {
    pub id: Seq<char>,
    pub source: Seq<char>,
    pub title: Seq<char>,
    pub blurb: Seq<char>,
    pub author: AuthorV,
    pub metadata: MetadataV,
    pub updated_time: Option<u32>,
    pub created_time: u32,
    pub download_time: u32,
    pub chapters: Seq<ChapterV>,
}

impl DeepView for Author {
    type V = AuthorV;

    open spec fn deep_view(&self) -> AuthorV {
        AuthorV { name: self.name@, link: self.link@ }
    }
}

impl DeepView for Metadata {
    type V = MetadataV;

    open spec fn deep_view(&self) -> MetadataV {
        MetadataV {
            category: self.category.deep_view(),
            rating: self.rating@,
            language: self.language.deep_view(),
            genre: self.genre.deep_view(),
            characters: self.characters.deep_view(),
            chapters: self.chapters.deep_view(),
            words: self.words.deep_view(),
            status: self.status.deep_view(),
            reviews: self.reviews.deep_view(),
            favs: self.favs.deep_view(),
            follows: self.follows.deep_view(),
        }
    }
}

impl DeepView for Chapter {
    type V = ChapterV;

    open spec fn deep_view(&self) -> ChapterV {
        ChapterV {
            num: self.num,
            title: self.title@,
            url: self.url@,
            contents: self.contents@,
            error: self.error.deep_view(),
        }
    }
}

impl DeepView for Book {
    type V = BookV;

    open spec fn deep_view(&self) -> BookV {
        BookV {
            id: self.id@,
            source: self.source@,
            title: self.title@,
            blurb: self.blurb@,
            author: self.author.deep_view(),
            metadata: self.metadata.deep_view(),
            updated_time: self.updated_time,
            created_time: self.created_time,
            download_time: self.download_time,
            chapters: self.chapters.deep_view(),
        }
    }
}

} // verus!
