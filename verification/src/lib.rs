//! Conversion of a structured book description into a packaged EPUB archive.
//!
//! The pipeline: raw JSON text is parsed into a [`json_types::Book`],
//! the renderer produces the stylesheet, cover page and one page per
//! chapter, and the assembler packages those entries, in order, into a
//! zip-based EPUB container written to a byte buffer.

use vstd::prelude::*;

pub mod epub;
pub mod json;
pub mod fields;
pub mod json_types;
pub mod render;
pub mod textutil;

verus! {

/// One error type for the whole conversion pipeline.
///
/// Each variant carries the originating error's message:
/// malformed input text, a sink write failure, an archive-format
/// constraint violated by the packaging layer, or a rendering failure.
#[derive(Debug)]
pub enum Error {
    ParseError(String),
    IoError(String),
    PackagingError(String),
    TemplateError(String),
}

impl Error {
    /// The message carried by this error, whatever the variant.
    pub open spec fn spec_message(&self) -> Seq<char> {
        match self {
            Error::ParseError(m) => m@,
            Error::IoError(m) => m@,
            Error::PackagingError(m) => m@,
            Error::TemplateError(m) => m@,
        }
    }

    /// Returns the diagnostic message carried by this error.
    pub fn message(&self) -> (r: &str)
        ensures
            r@ == self.spec_message(),
    {
        match self {
            Error::ParseError(m) => m.as_str(),
            Error::IoError(m) => m.as_str(),
            Error::PackagingError(m) => m.as_str(),
            Error::TemplateError(m) => m.as_str(),
        }
    }
}

/// Converts one book description to a finished archive, appending the
/// archive's bytes to `to`. Rejected input text surfaces as a parse
/// error; on success the input parsed and the archive was written.
/// For a parsed book whose chapters carry pairwise-distinct ordering
/// keys, parsing and assembly are owed success, so any failure left
/// is the packaging layer refusing the final emission.
pub fn build_epub_to(book_json: &str, to: &mut Vec<u8>) -> (r: Result<(), Error>)
    ensures
        json::spec_parse_book(book_json@) is None <==> (r matches Err(e) && e matches
            Error::ParseError(_)),
        r is Ok ==> json::spec_parse_book(book_json@) is Some && old(to)@.len() < final(to)@.len(),
        r matches Err(e) ==> (e matches Error::ParseError(_) || e matches Error::PackagingError(_)),
        (json::spec_parse_book(book_json@) matches Some(bv)
            && epub::distinct_chapter_nums(bv)) ==> (r is Ok || r matches Err(
            Error::PackagingError(_),
        )),
{
    let book = match json::parse_book(book_json) {
        Ok(b) => b,
        Err(e) => {
            return Err(e);
        },
    };
    let builder = match epub::prepare_epub(&book) {
        Ok(b) => b,
        Err(e) => {
            return Err(e);
        },
    };
    match epub::epub_generate(builder, to) {
        Ok(_) => Ok(()),
        Err(e) => Err(e),
    }
}

/// The buffer-returning convenience form of [`build_epub_to`], for
/// hosts without a streaming sink: the complete archive as one byte
/// buffer.
pub fn build_epub(book_json: &str) -> (r: Result<Vec<u8>, Error>)
    ensures
        json::spec_parse_book(book_json@) is None <==> (r matches Err(e) && e matches
            Error::ParseError(_)),
        r matches Ok(buf) ==> json::spec_parse_book(book_json@) is Some && buf@.len() > 0,
        r matches Err(e) ==> (e matches Error::ParseError(_) || e matches Error::PackagingError(_)),
        (json::spec_parse_book(book_json@) matches Some(bv)
            && epub::distinct_chapter_nums(bv)) ==> (r is Ok || r matches Err(
            Error::PackagingError(_),
        )),
{
    let mut buf: Vec<u8> = Vec::new();
    match build_epub_to(book_json, &mut buf) {
        Ok(_) => Ok(buf),
        Err(e) => Err(e),
    }
}

} // verus!
