//! Field formatting: display strings derived from raw book fields.
//!
//! `chapter_description` derives the table-of-contents label of a
//! chapter; `format_epoch_time` turns an epoch-seconds timestamp into
//! a calendar string, degrading to `None` instead of failing.

use vstd::prelude::*;
use core::fmt::Write;
use crate::json_types::{Book, BookV, Chapter, ChapterV};
use crate::textutil::{dec_str, push_dec_u32};

verus! {

/// The label of a chapter, per the fixed precedence: a single-chapter
/// book whose chapter has no title is labeled by the book's title; an
/// untitled chapter in any other book is labeled `Chapter {num}`; a
/// titled chapter is labeled `Chapter {num}: {title}`.
pub open spec fn label_of(c: ChapterV, b: BookV) -> Seq<char> {
    if b.chapters.len() == 1 && c.title.len() == 0 {
        b.title
    } else if c.title.len() == 0 {
        "Chapter "@ + dec_str(c.num as nat)
    } else {
        "Chapter "@ + dec_str(c.num as nat) + ": "@ + c.title
    }
}

/// Derives the human-readable label of a chapter for the table of
/// contents and references.
pub fn chapter_description(chapter: &Chapter, book: &Book) -> (r: String)
    ensures
        r@ == label_of(chapter.deep_view(), book.deep_view()),
{
    proof {
        assert(book.deep_view().chapters.len() == book.chapters@.len());
    }
    if book.chapters.len() == 1 && chapter.title.as_str().is_empty() {
        book.title.clone()
    } else if chapter.title.as_str().is_empty() {
        let mut s = String::from_str("Chapter ");
        push_dec_u32(chapter.num, &mut s);
        s
    } else {
        let mut s = String::from_str("Chapter ");
        push_dec_u32(chapter.num, &mut s);
        s.append(": ");
        s.append(chapter.title.as_str());
        proof {
            assert(s@ =~= "Chapter "@ + dec_str(chapter.num as nat) + ": "@ + chapter.title@);
        }
        s
    }
}

/// What chrono's formatter returns for a given timestamp and pattern:
/// `None` when the timestamp is out of chrono's range or the pattern
/// is not a valid format string, the finished text otherwise.
pub uninterp spec fn formatted_time(secs: int, fmt: Seq<char>) -> Option<Seq<char>>;

/// Relies on chrono's `DateTime::<Utc>::from_timestamp` and its
/// strftime-style formatter: the output is a function of the
/// timestamp and the pattern alone, `from_timestamp` returns `None`
/// for timestamps whose day number falls outside chrono's calendar,
/// and a formatting error surfaces as `Err` through `write!` rather
/// than a panic.
#[verifier::external_body]
fn chrono_format_epoch(secs: i64, pattern: &str) -> (r: Option<String>)
    ensures
        r.deep_view() == formatted_time(secs as int, pattern@),
        secs > 8_300_000_000_000i64 ==> r is None,
        secs < -8_400_000_000_000i64 ==> r is None,
{
    match chrono::DateTime::from_timestamp(secs, 0) {
        None => None,
        Some(dt) => {
            let mut out = String::new();
            match write!(&mut out, "{}", dt.format(pattern)) {
                Ok(()) => Some(out),
                Err(_) => None,
            }
        },
    }
}

/// Formats an epoch-seconds timestamp with the given pattern. Returns
/// `None` (never an error) when the timestamp cannot be represented
/// or the pattern is invalid.
pub fn format_epoch_time(epoch_seconds: i64, pattern: &str) -> (r: Option<String>)
    ensures
        r.deep_view() == formatted_time(epoch_seconds as int, pattern@),
        epoch_seconds > 8_300_000_000_000i64 ==> r is None,
        epoch_seconds < -8_400_000_000_000i64 ==> r is None,
{
    chrono_format_epoch(epoch_seconds, pattern)
}

} // verus!
