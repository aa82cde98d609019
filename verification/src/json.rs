//! Parsing of the structured input text into the document model.
//!
//! The input is one JSON object describing a book. The grammar is
//! parsed into a small value tree first, and the document model is
//! extracted from the tree; both steps are pinned to specification
//! twins, so the whole text-to-`Book` function is exact: every
//! accepted text maps to the book the specification assigns to it,
//! and every rejected text is rejected by the specification too.
//!
//! The grammar accepts any JSON value, unicode escapes with
//! surrogate pairs included. Numbers outside the model's unsigned
//! integer range parse structurally and fail only where a typed
//! field needs their value; texts over a fixed size bound are
//! rejected outright.

use vstd::prelude::*;
use crate::Error;
use crate::json_types::{Author, AuthorV, Book, BookV, Chapter, ChapterV, Metadata, MetadataV};
use crate::textutil::{char_from_code, lemma_texts_differ_at, push_char, str_eq};

verus! {

broadcast use vstd::seq::axiom_seq_index_decreases, vstd::seq::axiom_seq_subrange_decreases;

/// One node of the parsed input tree. Strings, unsigned numbers,
/// booleans, null, arrays and objects; an object keeps its members in
/// input order.
pub enum JVal {
    Str(String),
    Num(u32),
    NumOther,
    Tru,
    Fal,
    Null,
    Arr(Vec<JVal>),
    Obj(Vec<(String, JVal)>),
}

/// Mathematical model of a [`JVal`].
pub ghost enum JValV {
    Str(Seq<char>),
    Num(u32),
    NumOther,
    Tru,
    Fal,
    Null,
    Arr(Seq<JValV>),
    Obj(Seq<(Seq<char>, JValV)>),
}

/// The model of a value tree.
pub open spec fn jv(v: JVal) -> JValV
    decreases v,
{
    match v {
        JVal::Str(t) => JValV::Str(t@),
        JVal::Num(n) => JValV::Num(n),
        JVal::NumOther => JValV::NumOther,
        JVal::Tru => JValV::Tru,
        JVal::Fal => JValV::Fal,
        JVal::Null => JValV::Null,
        JVal::Arr(items) => JValV::Arr(jv_seq(items@)),
        JVal::Obj(fs) => JValV::Obj(jv_fields(fs@)),
    }
}

/// The models of the elements of an array.
pub open spec fn jv_seq(s: Seq<JVal>) -> Seq<JValV>
    decreases s,
{
    if s.len() == 0 {
        Seq::empty()
    } else {
        jv_seq(s.drop_last()).push(jv(s.last()))
    }
}

/// The models of the members of an object.
pub open spec fn jv_fields(s: Seq<(String, JVal)>) -> Seq<(Seq<char>, JValV)>
    decreases s,
{
    if s.len() == 0 {
        Seq::empty()
    } else {
        jv_fields(s.drop_last()).push((s.last().0@, jv(s.last().1)))
    }
}

proof fn lemma_jv_seq_props(s: Seq<JVal>)
    ensures
        jv_seq(s).len() == s.len(),
        forall|i: int| 0 <= i < s.len() ==> jv_seq(s)[i] == jv(s[i]),
    decreases s.len(),
{
    if s.len() > 0 {
        lemma_jv_seq_props(s.drop_last());
        assert forall|i: int| 0 <= i < s.len() implies jv_seq(s)[i] == jv(s[i]) by {
            if i < s.len() - 1 {
                assert(s.drop_last()[i] == s[i]);
            }
        }
    }
}

proof fn lemma_jv_fields_props(s: Seq<(String, JVal)>)
    ensures
        jv_fields(s).len() == s.len(),
        forall|i: int| 0 <= i < s.len() ==> jv_fields(s)[i] == (s[i].0@, jv(s[i].1)),
    decreases s.len(),
{
    if s.len() > 0 {
        lemma_jv_fields_props(s.drop_last());
        assert forall|i: int| 0 <= i < s.len() implies jv_fields(s)[i] == (s[i].0@, jv(s[i].1)) by {
            if i < s.len() - 1 {
                assert(s.drop_last()[i] == s[i]);
            }
        }
    }
}

proof fn lemma_jv_seq_push(s: Seq<JVal>, v: JVal)
    ensures
        jv_seq(s.push(v)) == jv_seq(s).push(jv(v)),
{
    assert(s.push(v).drop_last() =~= s);
    assert(s.push(v).last() == v);
}

proof fn lemma_jv_fields_push(s: Seq<(String, JVal)>, k: String, v: JVal)
    ensures
        jv_fields(s.push((k, v))) == jv_fields(s).push((k@, jv(v))),
{
    assert(s.push((k, v)).drop_last() =~= s);
    assert(s.push((k, v)).last() == (k, v));
}

/// The whitespace characters the grammar skips between tokens.
pub open spec fn is_ws(c: char) -> bool {
    c == ' ' || c == '\n' || c == '\t' || c == '\r'
}

/// A decimal digit.
pub open spec fn is_digit(c: char) -> bool {
    48 <= c as u32 <= 57
}

/// The first position at or after `i` that holds no whitespace.
pub open spec fn spec_skip_ws(s: Seq<char>, i: int) -> int
    decreases s.len() - i,
{
    if 0 <= i < s.len() && is_ws(s[i]) {
        spec_skip_ws(s, i + 1)
    } else {
        i
    }
}

fn skip_ws(s: &str, i: usize) -> (r: usize)
    requires
        i <= s@.len(),
    ensures
        r as int == spec_skip_ws(s@, i as int),
        i <= r <= s@.len(),
    decreases s@.len() - i,
{
    let len = s.unicode_len();
    if i < len {
        let c = s.get_char(i);
        if c == ' ' || c == '\n' || c == '\t' || c == '\r' {
            return skip_ws(s, i + 1);
        }
    }
    i
}

/// The value of a hexadecimal digit character.
pub open spec fn spec_hexd(c: char) -> Option<u32> {
    let u = c as u32;
    if 48 <= u <= 57 {
        Option::Some((u - 48) as u32)
    } else if 97 <= u <= 102 {
        Option::Some((u - 87) as u32)
    } else if 65 <= u <= 70 {
        Option::Some((u - 55) as u32)
    } else {
        Option::None
    }
}

fn hexd(c: char) -> (r: Option<u32>)
    ensures
        r == spec_hexd(c),
        r matches Some(v) ==> v < 16,
{
    let u = c as u32;
    if 48 <= u && u <= 57 {
        Some(u - 48)
    } else if 97 <= u && u <= 102 {
        Some(u - 87)
    } else if 65 <= u && u <= 70 {
        Some(u - 55)
    } else {
        None
    }
}

/// The value of the four hexadecimal digits at `i`.
pub open spec fn spec_hex4(s: Seq<char>, i: int) -> Option<u32> {
    if i + 4 <= s.len() {
        match (spec_hexd(s[i]), spec_hexd(s[i + 1]), spec_hexd(s[i + 2]), spec_hexd(s[i + 3])) {
            (Option::Some(a), Option::Some(b), Option::Some(c), Option::Some(d)) => Option::Some(
                (a * 4096 + b * 256 + c * 16 + d) as u32,
            ),
            _ => Option::None,
        }
    } else {
        Option::None
    }
}

fn hex4(s: &str, i: usize) -> (r: Option<u32>)
    requires
        i <= s@.len(),
        s@.len() <= 1_000_000_000,
    ensures
        r == spec_hex4(s@, i as int),
        r matches Some(v) ==> v < 0x10000,
{
    let len = s.unicode_len();
    if len - i < 4 {
        return None;
    }
    match (hexd(s.get_char(i)), hexd(s.get_char(i + 1)), hexd(s.get_char(i + 2)), hexd(
        s.get_char(i + 3),
    )) {
        (Some(a), Some(b), Some(c), Some(d)) => Some(a * 4096 + b * 256 + c * 16 + d),
        _ => None,
    }
}

/// The character a one-letter escape stands for.
pub open spec fn spec_unesc(e: char) -> Option<char> {
    if e == '"' {
        Option::Some('"')
    } else if e == '\\' {
        Option::Some('\\')
    } else if e == '/' {
        Option::Some('/')
    } else if e == 'n' {
        Option::Some('\n')
    } else if e == 't' {
        Option::Some('\t')
    } else if e == 'r' {
        Option::Some('\r')
    } else if e == 'b' {
        Option::Some('\u{0008}')
    } else if e == 'f' {
        Option::Some('\u{000C}')
    } else {
        Option::None
    }
}

fn unesc(e: char) -> (r: Option<char>)
    ensures
        r == spec_unesc(e),
{
    if e == '"' {
        Some('"')
    } else if e == '\\' {
        Some('\\')
    } else if e == '/' {
        Some('/')
    } else if e == 'n' {
        Some('\n')
    } else if e == 't' {
        Some('\t')
    } else if e == 'r' {
        Some('\r')
    } else if e == 'b' {
        Some('\u{0008}')
    } else if e == 'f' {
        Some('\u{000C}')
    } else {
        None
    }
}

/// The body of a string token, read from just after the opening
/// quote, with `acc` the characters gathered so far: the gathered
/// text and the position after the closing quote.
pub open spec fn spec_str_body(s: Seq<char>, i: int, acc: Seq<char>, fuel: nat) -> Option<
    (Seq<char>, int),
>
    decreases fuel,
{
    if fuel == 0 {
        Option::None
    } else if !(0 <= i < s.len()) {
        Option::None
    } else if s[i] == '"' {
        Option::Some((acc, i + 1))
    } else if s[i] == '\\' {
        if i + 1 >= s.len() {
            Option::None
        } else if s[i + 1] == 'u' {
            match spec_hex4(s, i + 2) {
                Option::None => Option::None,
                Option::Some(u) => if u < 0xD800 || (0xE000 <= u && u <= 0xFFFF) {
                    spec_str_body(s, i + 6, acc.push(u as char), (fuel - 1) as nat)
                } else if 0xD800 <= u && u <= 0xDBFF {
                    if i + 7 < s.len() && s[i + 6] == '\\' && s[i + 7] == 'u' {
                        match spec_hex4(s, i + 8) {
                            Option::None => Option::None,
                            Option::Some(lo) => if 0xDC00 <= lo && lo <= 0xDFFF {
                                spec_str_body(
                                    s,
                                    i + 12,
                                    acc.push(
                                        ((0x10000 + (u - 0xD800) * 0x400 + (lo - 0xDC00)) as u32) as char,
                                    ),
                                    (fuel - 1) as nat,
                                )
                            } else {
                                Option::None
                            },
                        }
                    } else {
                        Option::None
                    }
                } else {
                    Option::None
                },
            }
        } else {
            match spec_unesc(s[i + 1]) {
                Option::None => Option::None,
                Option::Some(c) => spec_str_body(s, i + 2, acc.push(c), (fuel - 1) as nat),
            }
        }
    } else {
        spec_str_body(s, i + 1, acc.push(s[i]), (fuel - 1) as nat)
    }
}

fn str_body(s: &str, i: usize, fuel: u64, acc: &mut String) -> (r: Option<usize>)
    requires
        i <= s@.len(),
        s@.len() <= 1_000_000_000,
    ensures
        match r {
            Some(j) => spec_str_body(s@, i as int, old(acc)@, fuel as nat) == Some(
                (final(acc)@, j as int),
            ) && j <= s@.len(),
            None => spec_str_body(s@, i as int, old(acc)@, fuel as nat) is None,
        },
    decreases fuel,
{
    if fuel == 0 {
        return None;
    }
    let len = s.unicode_len();
    if i >= len {
        return None;
    }
    let c = s.get_char(i);
    if c == '"' {
        return Some(i + 1);
    }
    if c == '\\' {
        if i + 1 >= len {
            return None;
        }
        let e = s.get_char(i + 1);
        if e == 'u' {
            match hex4(s, i + 2) {
                None => None,
                Some(u) => {
                    if u < 0xD800 || (0xE000 <= u && u <= 0xFFFF) {
                        match char_from_code(u) {
                            None => None,
                            Some(ch) => {
                                push_char(acc, ch);
                                str_body(s, i + 6, fuel - 1, acc)
                            },
                        }
                    } else if 0xD800 <= u && u <= 0xDBFF {
                        if i + 7 < len && s.get_char(i + 6) == '\\' && s.get_char(i + 7) == 'u' {
                            match hex4(s, i + 8) {
                                None => None,
                                Some(lo) => {
                                    if 0xDC00 <= lo && lo <= 0xDFFF {
                                        let scalar = 0x10000 + (u - 0xD800) * 0x400 + (lo - 0xDC00);
                                        match char_from_code(scalar) {
                                            None => None,
                                            Some(ch) => {
                                                push_char(acc, ch);
                                                str_body(s, i + 12, fuel - 1, acc)
                                            },
                                        }
                                    } else {
                                        None
                                    }
                                },
                            }
                        } else {
                            None
                        }
                    } else {
                        None
                    }
                },
            }
        } else {
            match unesc(e) {
                None => None,
                Some(ch) => {
                    push_char(acc, ch);
                    str_body(s, i + 2, fuel - 1, acc)
                },
            }
        }
    } else {
        push_char(acc, c);
        str_body(s, i + 1, fuel - 1, acc)
    }
}

/// The end of the run of digits starting at `i`.
pub open spec fn spec_digit_run(s: Seq<char>, i: int) -> int
    decreases s.len() - i,
{
    if 0 <= i < s.len() && is_digit(s[i]) {
        spec_digit_run(s, i + 1)
    } else {
        i
    }
}

fn digit_run(s: &str, i: usize) -> (r: usize)
    requires
        i <= s@.len(),
    ensures
        r as int == spec_digit_run(s@, i as int),
        i <= r <= s@.len(),
        forall|k: int| i <= k < r ==> is_digit(s@[k]),
    decreases s@.len() - i,
{
    let len = s.unicode_len();
    if i < len {
        let c = s.get_char(i);
        let u = c as u32;
        if 48 <= u && u <= 57 {
            return digit_run(s, i + 1);
        }
    }
    i
}

/// The digits in `[i, end)` folded into a number; `None` when the
/// value would not fit the model's unsigned range.
pub open spec fn spec_digits_u32(s: Seq<char>, i: int, end: int, acc: nat) -> Option<u32>
    decreases end - i,
{
    if i < end {
        let acc2 = acc * 10 + (s[i] as u32 - 48);
        if acc2 > u32::MAX {
            Option::None
        } else {
            spec_digits_u32(s, i + 1, end, acc2 as nat)
        }
    } else {
        if acc <= u32::MAX {
            Option::Some(acc as u32)
        } else {
            Option::None
        }
    }
}

fn digits_u32(s: &str, i: usize, end: usize, acc: u32) -> (r: Option<u32>)
    requires
        i <= end,
        end <= s@.len(),
        s@.len() <= 1_000_000_000,
        forall|k: int| i <= k < end ==> is_digit(s@[k]),
    ensures
        r == spec_digits_u32(s@, i as int, end as int, acc as nat),
    decreases end - i,
{
    if i < end {
        let c = s.get_char(i);
        let acc2: u64 = (acc as u64) * 10 + ((c as u32 - 48) as u64);
        if acc2 > u32::MAX as u64 {
            return None;
        }
        return digits_u32(s, i + 1, end, acc2 as u32);
    }
    Some(acc)
}

/// The fraction and exponent tail of a number token: the position
/// after the whole token, or `None` when the tail is malformed.
pub open spec fn spec_number_tail(s: Seq<char>, b: int) -> Option<int> {
    let c = if 0 <= b < s.len() && s[b] == '.' {
        if b + 1 < s.len() && is_digit(s[b + 1]) {
            spec_digit_run(s, b + 1)
        } else {
            -1
        }
    } else {
        b
    };
    if c < 0 {
        Option::None
    } else if c < s.len() && (s[c] == 'e' || s[c] == 'E') {
        let d0 = if c + 1 < s.len() && (s[c + 1] == '+' || s[c + 1] == '-') {
            c + 2
        } else {
            c + 1
        };
        if d0 < s.len() && is_digit(s[d0]) {
            Option::Some(spec_digit_run(s, d0))
        } else {
            Option::None
        }
    } else {
        Option::Some(c)
    }
}

fn number_tail(s: &str, b: usize) -> (r: Option<usize>)
    requires
        b <= s@.len(),
        s@.len() <= 1_000_000_000,
    ensures
        match r {
            Some(e) => spec_number_tail(s@, b as int) == Some(e as int) && b <= e <= s@.len(),
            None => spec_number_tail(s@, b as int) is None,
        },
{
    let len = s.unicode_len();
    let c: usize;
    if b < len && s.get_char(b) == '.' {
        if b + 1 < len && is_digit_exec(s.get_char(b + 1)) {
            c = digit_run(s, b + 1);
        } else {
            return None;
        }
    } else {
        c = b;
    }
    if c < len && (s.get_char(c) == 'e' || s.get_char(c) == 'E') {
        let d0: usize = if c + 1 < len && (s.get_char(c + 1) == '+' || s.get_char(c + 1) == '-') {
            c + 2
        } else {
            c + 1
        };
        if d0 < len && is_digit_exec(s.get_char(d0)) {
            Some(digit_run(s, d0))
        } else {
            None
        }
    } else {
        Some(c)
    }
}

fn is_digit_exec(c: char) -> (r: bool)
    ensures
        r == is_digit(c),
{
    let u = c as u32;
    48 <= u && u <= 57
}

/// One number token at `j` (a digit or a leading minus): its value
/// when it is a plain unsigned integer within the model's range, the
/// bare fact of a number otherwise, and the position after it.
pub open spec fn spec_number(s: Seq<char>, j: int) -> Option<(JValV, int)> {
    let neg = 0 <= j < s.len() && s[j] == '-';
    let a = if neg {
        j + 1
    } else {
        j
    };
    if !(0 <= a < s.len() && is_digit(s[a])) {
        Option::None
    } else {
        let b = spec_digit_run(s, a);
        match spec_number_tail(s, b) {
            Option::None => Option::None,
            Option::Some(end) => if !neg && end == b {
                match spec_digits_u32(s, a, b, 0) {
                    Option::Some(n) => Option::Some((JValV::Num(n), end)),
                    Option::None => Option::Some((JValV::NumOther, end)),
                }
            } else {
                Option::Some((JValV::NumOther, end))
            },
        }
    }
}

fn p_number(s: &str, j: usize) -> (r: Option<(JVal, usize)>)
    requires
        j <= s@.len(),
        s@.len() <= 1_000_000_000,
    ensures
        match r {
            Some(p) => spec_number(s@, j as int) == Some((jv(p.0), p.1 as int)) && p.1 <= s@.len(),
            None => spec_number(s@, j as int) is None,
        },
{
    let len = s.unicode_len();
    let neg = j < len && s.get_char(j) == '-';
    let a: usize = if neg {
        j + 1
    } else {
        j
    };
    if !(a < len && is_digit_exec(s.get_char(a))) {
        return None;
    }
    let b = digit_run(s, a);
    match number_tail(s, b) {
        None => None,
        Some(end) => {
            if !neg && end == b {
                match digits_u32(s, a, b, 0) {
                    Some(n) => Some((JVal::Num(n), end)),
                    None => Some((JVal::NumOther, end)),
                }
            } else {
                Some((JVal::NumOther, end))
            }
        },
    }
}

/// One value of the tree grammar, read from the first non-whitespace
/// position at or after `i`: the parsed node and the position after
/// it. The fuel bounds the recursion; the top level grants more fuel
/// than any input of its length can consume.
pub open spec fn spec_value(s: Seq<char>, i: int, fuel: nat) -> Option<(JValV, int)>
    decreases fuel,
{
    if fuel == 0 {
        Option::None
    } else {
        let j = spec_skip_ws(s, i);
        if !(0 <= j < s.len()) {
            Option::None
        } else {
            let c = s[j];
            if c == '"' {
                match spec_str_body(s, j + 1, Seq::empty(), (fuel - 1) as nat) {
                    Option::Some((t, k)) => Option::Some((JValV::Str(t), k)),
                    Option::None => Option::None,
                }
            } else if is_digit(c) || c == '-' {
                spec_number(s, j)
            } else if c == 't' {
                if j + 4 <= s.len() && s[j + 1] == 'r' && s[j + 2] == 'u' && s[j + 3] == 'e' {
                    Option::Some((JValV::Tru, j + 4))
                } else {
                    Option::None
                }
            } else if c == 'f' {
                if j + 5 <= s.len() && s[j + 1] == 'a' && s[j + 2] == 'l' && s[j + 3] == 's' && s[j
                    + 4] == 'e' {
                    Option::Some((JValV::Fal, j + 5))
                } else {
                    Option::None
                }
            } else if c == 'n' {
                if j + 4 <= s.len() && s[j + 1] == 'u' && s[j + 2] == 'l' && s[j + 3] == 'l' {
                    Option::Some((JValV::Null, j + 4))
                } else {
                    Option::None
                }
            } else if c == '[' {
                let j2 = spec_skip_ws(s, j + 1);
                if 0 <= j2 < s.len() && s[j2] == ']' {
                    Option::Some((JValV::Arr(Seq::empty()), j2 + 1))
                } else {
                    match spec_arr_items(s, j + 1, (fuel - 1) as nat, Seq::empty()) {
                        Option::Some((vs, k)) => Option::Some((JValV::Arr(vs), k)),
                        Option::None => Option::None,
                    }
                }
            } else if c == '{' {
                let j2 = spec_skip_ws(s, j + 1);
                if 0 <= j2 < s.len() && s[j2] == '}' {
                    Option::Some((JValV::Obj(Seq::empty()), j2 + 1))
                } else {
                    match spec_obj_members(s, j + 1, (fuel - 1) as nat, Seq::empty()) {
                        Option::Some((fs, k)) => Option::Some((JValV::Obj(fs), k)),
                        Option::None => Option::None,
                    }
                }
            } else {
                Option::None
            }
        }
    }
}

/// The remaining elements of an array, `acc` holding those already
/// read: all elements and the position after the closing bracket.
pub open spec fn spec_arr_items(s: Seq<char>, i: int, fuel: nat, acc: Seq<JValV>) -> Option<
    (Seq<JValV>, int),
>
    decreases fuel,
{
    if fuel == 0 {
        Option::None
    } else {
        match spec_value(s, i, (fuel - 1) as nat) {
            Option::None => Option::None,
            Option::Some((v, k)) => {
                let j = spec_skip_ws(s, k);
                if 0 <= j < s.len() && s[j] == ',' {
                    spec_arr_items(s, j + 1, (fuel - 1) as nat, acc.push(v))
                } else if 0 <= j < s.len() && s[j] == ']' {
                    Option::Some((acc.push(v), j + 1))
                } else {
                    Option::None
                }
            },
        }
    }
}

/// The remaining members of an object, `acc` holding those already
/// read: all members in input order and the position after the
/// closing brace.
pub open spec fn spec_obj_members(s: Seq<char>, i: int, fuel: nat, acc: Seq<(Seq<char>, JValV)>)
    -> Option<(Seq<(Seq<char>, JValV)>, int)>
    decreases fuel,
{
    if fuel == 0 {
        Option::None
    } else {
        let j = spec_skip_ws(s, i);
        if !(0 <= j < s.len() && s[j] == '"') {
            Option::None
        } else {
            match spec_str_body(s, j + 1, Seq::empty(), (fuel - 1) as nat) {
                Option::None => Option::None,
                Option::Some((k, p)) => {
                    let p2 = spec_skip_ws(s, p);
                    if !(0 <= p2 < s.len() && s[p2] == ':') {
                        Option::None
                    } else {
                        match spec_value(s, p2 + 1, (fuel - 1) as nat) {
                            Option::None => Option::None,
                            Option::Some((v, m)) => {
                                let q = spec_skip_ws(s, m);
                                if 0 <= q < s.len() && s[q] == ',' {
                                    spec_obj_members(s, q + 1, (fuel - 1) as nat, acc.push((k, v)))
                                } else if 0 <= q < s.len() && s[q] == '}' {
                                    Option::Some((acc.push((k, v)), q + 1))
                                } else {
                                    Option::None
                                }
                            },
                        }
                    }
                },
            }
        }
    }
}

fn p_value(s: &str, i: usize, fuel: u64) -> (r: Option<(JVal, usize)>)
    requires
        i <= s@.len(),
        s@.len() <= 1_000_000_000,
    ensures
        match r {
            Some(p) => spec_value(s@, i as int, fuel as nat) == Some((jv(p.0), p.1 as int)) && p.1
                <= s@.len(),
            None => spec_value(s@, i as int, fuel as nat) is None,
        },
    decreases fuel,
{
    if fuel == 0 {
        return None;
    }
    let j = skip_ws(s, i);
    let len = s.unicode_len();
    if j >= len {
        return None;
    }
    let c = s.get_char(j);
    if c == '"' {
        let mut acc = String::new();
        match str_body(s, j + 1, fuel - 1, &mut acc) {
            Some(k) => Some((JVal::Str(acc), k)),
            None => None,
        }
    } else if (48 <= c as u32 && c as u32 <= 57) || c == '-' {
        p_number(s, j)
    } else if c == 't' {
        if len - j >= 4 && s.get_char(j + 1) == 'r' && s.get_char(j + 2) == 'u' && s.get_char(j + 3)
            == 'e' {
            Some((JVal::Tru, j + 4))
        } else {
            None
        }
    } else if c == 'f' {
        if len - j >= 5 && s.get_char(j + 1) == 'a' && s.get_char(j + 2) == 'l' && s.get_char(j + 3)
            == 's' && s.get_char(j + 4) == 'e' {
            Some((JVal::Fal, j + 5))
        } else {
            None
        }
    } else if c == 'n' {
        if len - j >= 4 && s.get_char(j + 1) == 'u' && s.get_char(j + 2) == 'l' && s.get_char(j + 3)
            == 'l' {
            Some((JVal::Null, j + 4))
        } else {
            None
        }
    } else if c == '[' {
        let j2 = skip_ws(s, j + 1);
        if j2 < len && s.get_char(j2) == ']' {
            Some((JVal::Arr(Vec::new()), j2 + 1))
        } else {
            match p_arr_items(s, j + 1, fuel - 1, Vec::new()) {
                Some(p) => Some((JVal::Arr(p.0), p.1)),
                None => None,
            }
        }
    } else if c == '{' {
        let j2 = skip_ws(s, j + 1);
        if j2 < len && s.get_char(j2) == '}' {
            Some((JVal::Obj(Vec::new()), j2 + 1))
        } else {
            match p_obj_members(s, j + 1, fuel - 1, Vec::new()) {
                Some(p) => Some((JVal::Obj(p.0), p.1)),
                None => None,
            }
        }
    } else {
        None
    }
}

fn p_arr_items(s: &str, i: usize, fuel: u64, acc: Vec<JVal>) -> (r: Option<(Vec<JVal>, usize)>)
    requires
        i <= s@.len(),
        s@.len() <= 1_000_000_000,
    ensures
        match r {
            Some(p) => spec_arr_items(s@, i as int, fuel as nat, jv_seq(acc@)) == Some(
                (jv_seq(p.0@), p.1 as int),
            ) && p.1 <= s@.len(),
            None => spec_arr_items(s@, i as int, fuel as nat, jv_seq(acc@)) is None,
        },
    decreases fuel,
{
    if fuel == 0 {
        return None;
    }
    match p_value(s, i, fuel - 1) {
        None => None,
        Some(p) => {
            let (v, k) = p;
            let j = skip_ws(s, k);
            let len = s.unicode_len();
            if j < len && s.get_char(j) == ',' {
                proof {
                    lemma_jv_seq_push(acc@, v);
                }
                let mut acc2 = acc;
                acc2.push(v);
                p_arr_items(s, j + 1, fuel - 1, acc2)
            } else if j < len && s.get_char(j) == ']' {
                proof {
                    lemma_jv_seq_push(acc@, v);
                }
                let mut acc2 = acc;
                acc2.push(v);
                Some((acc2, j + 1))
            } else {
                None
            }
        },
    }
}

fn p_obj_members(s: &str, i: usize, fuel: u64, acc: Vec<(String, JVal)>) -> (r: Option<
    (Vec<(String, JVal)>, usize),
>)
    requires
        i <= s@.len(),
        s@.len() <= 1_000_000_000,
    ensures
        match r {
            Some(p) => spec_obj_members(s@, i as int, fuel as nat, jv_fields(acc@)) == Some(
                (jv_fields(p.0@), p.1 as int),
            ) && p.1 <= s@.len(),
            None => spec_obj_members(s@, i as int, fuel as nat, jv_fields(acc@)) is None,
        },
    decreases fuel,
{
    if fuel == 0 {
        return None;
    }
    let j = skip_ws(s, i);
    let len = s.unicode_len();
    if !(j < len && s.get_char(j) == '"') {
        return None;
    }
    let mut key = String::new();
    match str_body(s, j + 1, fuel - 1, &mut key) {
        None => None,
        Some(p) => {
            let p2 = skip_ws(s, p);
            if !(p2 < len && s.get_char(p2) == ':') {
                return None;
            }
            match p_value(s, p2 + 1, fuel - 1) {
                None => None,
                Some(q) => {
                    let (v, m) = q;
                    let w = skip_ws(s, m);
                    if w < len && s.get_char(w) == ',' {
                        proof {
                            lemma_jv_fields_push(acc@, key, v);
                        }
                        let mut acc2 = acc;
                        acc2.push((key, v));
                        p_obj_members(s, w + 1, fuel - 1, acc2)
                    } else if w < len && s.get_char(w) == '}' {
                        proof {
                            lemma_jv_fields_push(acc@, key, v);
                        }
                        let mut acc2 = acc;
                        acc2.push((key, v));
                        Some((acc2, w + 1))
                    } else {
                        None
                    }
                },
            }
        },
    }
}

/// The value tree of a whole input text: its one value, with nothing
/// but whitespace around it. Texts over the size bound are rejected.
pub open spec fn spec_text_value(s: Seq<char>) -> Option<JValV> {
    if s.len() > 1_000_000_000 {
        Option::None
    } else {
        match spec_value(s, 0, (8 * s.len() + 64) as nat) {
            Option::None => Option::None,
            Option::Some((v, k)) => if spec_skip_ws(s, k) == s.len() {
                Option::Some(v)
            } else {
                Option::None
            },
        }
    }
}

/// Parses a whole input text into its value tree.
pub fn parse_text_value(s: &str) -> (r: Option<JVal>)
    ensures
        match r {
            Some(v) => spec_text_value(s@) == Some(jv(v)),
            None => spec_text_value(s@) is None,
        },
{
    let len = s.unicode_len();
    if len > 1_000_000_000 {
        return None;
    }
    let fuel: u64 = 8 * (len as u64) + 64;
    match p_value(s, 0, fuel) {
        None => None,
        Some(p) => {
            let (v, k) = p;
            let e = skip_ws(s, k);
            if e == len {
                Some(v)
            } else {
                None
            }
        },
    }
}

/// The value of the first member with the given key, if any.
pub open spec fn spec_lookup(fs: Seq<(Seq<char>, JValV)>, k: Seq<char>) -> Option<JValV>
    decreases fs.len(),
{
    if fs.len() == 0 {
        Option::None
    } else if fs[0].0 == k {
        Option::Some(fs[0].1)
    } else {
        spec_lookup(fs.skip(1), k)
    }
}

/// A required text member: present and a string.
pub open spec fn str_field(fs: Seq<(Seq<char>, JValV)>, k: Seq<char>) -> Option<Seq<char>> {
    match spec_lookup(fs, k) {
        Option::Some(JValV::Str(t)) => Option::Some(t),
        _ => Option::None,
    }
}

/// A required number member: present and an unsigned number.
pub open spec fn u32_field(fs: Seq<(Seq<char>, JValV)>, k: Seq<char>) -> Option<u32> {
    match spec_lookup(fs, k) {
        Option::Some(JValV::Num(n)) => Option::Some(n),
        _ => Option::None,
    }
}

/// An optional text member: absent or null count as absent; a string
/// counts as present; anything else is a type error.
pub open spec fn opt_str_field(fs: Seq<(Seq<char>, JValV)>, k: Seq<char>) -> Option<
    Option<Seq<char>>,
> {
    match spec_lookup(fs, k) {
        Option::None => Option::Some(Option::None),
        Option::Some(JValV::Null) => Option::Some(Option::None),
        Option::Some(JValV::Str(t)) => Option::Some(Option::Some(t)),
        _ => Option::None,
    }
}

/// An optional number member, as [`opt_str_field`].
pub open spec fn opt_u32_field(fs: Seq<(Seq<char>, JValV)>, k: Seq<char>) -> Option<Option<u32>> {
    match spec_lookup(fs, k) {
        Option::None => Option::Some(Option::None),
        Option::Some(JValV::Null) => Option::Some(Option::None),
        Option::Some(JValV::Num(n)) => Option::Some(Option::Some(n)),
        _ => Option::None,
    }
}

/// The texts of an array whose elements must all be strings.
pub open spec fn strings_of(items: Seq<JValV>) -> Option<Seq<Seq<char>>>
    decreases items.len(),
{
    if items.len() == 0 {
        Option::Some(Seq::empty())
    } else {
        match (strings_of(items.drop_last()), items.last()) {
            (Option::Some(ts), JValV::Str(t)) => Option::Some(ts.push(t)),
            _ => Option::None,
        }
    }
}

/// The author a value stands for: an object with `name` and `link`.
pub open spec fn author_of(v: JValV) -> Option<AuthorV> {
    match v {
        JValV::Obj(fs) => match (str_field(fs, "name"@), str_field(fs, "link"@)) {
            (Option::Some(n), Option::Some(l)) => Option::Some(AuthorV { name: n, link: l }),
            _ => Option::None,
        },
        _ => Option::None,
    }
}

/// The metadata a value stands for: `category` (a string array) and
/// `rating` are required, the nine descriptive members optional.
pub open spec fn meta_of(v: JValV) -> Option<MetadataV> {
    match v {
        JValV::Obj(fs) => {
            let cat = match spec_lookup(fs, "category"@) {
                Option::Some(JValV::Arr(items)) => strings_of(items),
                _ => Option::None,
            };
            match (
                cat,
                str_field(fs, "rating"@),
                opt_str_field(fs, "language"@),
                opt_str_field(fs, "genre"@),
                opt_str_field(fs, "characters"@),
                opt_str_field(fs, "chapters"@),
                opt_str_field(fs, "words"@),
                opt_str_field(fs, "status"@),
                opt_str_field(fs, "reviews"@),
                opt_str_field(fs, "favs"@),
                opt_str_field(fs, "follows"@),
            ) {
                (
                    Option::Some(category),
                    Option::Some(rating),
                    Option::Some(language),
                    Option::Some(genre),
                    Option::Some(characters),
                    Option::Some(chapters),
                    Option::Some(words),
                    Option::Some(status),
                    Option::Some(reviews),
                    Option::Some(favs),
                    Option::Some(follows),
                ) => Option::Some(
                    MetadataV {
                        category,
                        rating,
                        language,
                        genre,
                        characters,
                        chapters,
                        words,
                        status,
                        reviews,
                        favs,
                        follows,
                    },
                ),
                _ => Option::None,
            }
        },
        _ => Option::None,
    }
}

/// The chapter a value stands for: `num`, `title`, `url` and
/// `contents` are required, `error` optional.
pub open spec fn chapter_of(v: JValV) -> Option<ChapterV> {
    match v {
        JValV::Obj(fs) => match (
            u32_field(fs, "num"@),
            str_field(fs, "title"@),
            str_field(fs, "url"@),
            str_field(fs, "contents"@),
            opt_str_field(fs, "error"@),
        ) {
            (
                Option::Some(num),
                Option::Some(title),
                Option::Some(url),
                Option::Some(contents),
                Option::Some(error),
            ) => Option::Some(ChapterV { num, title, url, contents, error }),
            _ => Option::None,
        },
        _ => Option::None,
    }
}

/// The chapters of an array value, each a chapter object, in order.
pub open spec fn chapters_of(items: Seq<JValV>) -> Option<Seq<ChapterV>>
    decreases items.len(),
{
    if items.len() == 0 {
        Option::Some(Seq::empty())
    } else {
        match (chapters_of(items.drop_last()), chapter_of(items.last())) {
            (Option::Some(cs), Option::Some(c)) => Option::Some(cs.push(c)),
            _ => Option::None,
        }
    }
}

/// The book a value stands for. All members but `updated_time` are
/// required; unknown members are ignored.
pub open spec fn book_of(v: JValV) -> Option<BookV> {
    match v {
        JValV::Obj(fs) => {
            let author = match spec_lookup(fs, "author"@) {
                Option::Some(a) => author_of(a),
                Option::None => Option::None,
            };
            let metadata = match spec_lookup(fs, "metadata"@) {
                Option::Some(m) => meta_of(m),
                Option::None => Option::None,
            };
            let chapters = match spec_lookup(fs, "chapters"@) {
                Option::Some(JValV::Arr(items)) => chapters_of(items),
                _ => Option::None,
            };
            match (
                str_field(fs, "id"@),
                str_field(fs, "source"@),
                str_field(fs, "title"@),
                str_field(fs, "blurb"@),
                author,
                metadata,
                opt_u32_field(fs, "updated_time"@),
                u32_field(fs, "created_time"@),
                u32_field(fs, "download_time"@),
                chapters,
            ) {
                (
                    Option::Some(id),
                    Option::Some(source),
                    Option::Some(title),
                    Option::Some(blurb),
                    Option::Some(author),
                    Option::Some(metadata),
                    Option::Some(updated_time),
                    Option::Some(created_time),
                    Option::Some(download_time),
                    Option::Some(chapters),
                ) => Option::Some(
                    BookV {
                        id,
                        source,
                        title,
                        blurb,
                        author,
                        metadata,
                        updated_time,
                        created_time,
                        download_time,
                        chapters,
                    },
                ),
                _ => Option::None,
            }
        },
        _ => Option::None,
    }
}

/// The book a whole input text stands for, if it parses and has the
/// required shape.
pub open spec fn spec_parse_book(s: Seq<char>) -> Option<BookV> {
    match spec_text_value(s) {
        Option::Some(v) => book_of(v),
        Option::None => Option::None,
    }
}

fn lookup<'a>(fs: &'a Vec<(String, JVal)>, k: &str) -> (r: Option<&'a JVal>)
    ensures
        match r {
            Some(v) => spec_lookup(jv_fields(fs@), k@) == Some(jv(*v)),
            None => spec_lookup(jv_fields(fs@), k@) is None,
        },
{
    proof {
        lemma_jv_fields_props(fs@);
    }
    let ghost m = jv_fields(fs@);
    proof {
        assert(m.skip(0) =~= m);
    }
    let mut i: usize = 0;
    while i < fs.len()
        invariant
            i <= fs@.len(),
            m == jv_fields(fs@),
            m.len() == fs@.len(),
            forall|t: int| 0 <= t < fs@.len() ==> m[t] == (fs@[t].0@, jv(fs@[t].1)),
            spec_lookup(m, k@) == spec_lookup(m.skip(i as int), k@),
        decreases fs@.len() - i,
    {
        if str_eq(fs[i].0.as_str(), k) {
            proof {
                assert(m.skip(i as int)[0] == m[i as int]);
            }
            return Some(&fs[i].1);
        }
        proof {
            assert(m.skip(i as int)[0] == m[i as int]);
            assert(m.skip(i as int).skip(1) =~= m.skip(i + 1));
        }
        i = i + 1;
    }
    proof {
        assert(m.skip(i as int) =~= Seq::<(Seq<char>, JValV)>::empty());
    }
    None
}

fn get_str(fs: &Vec<(String, JVal)>, k: &str) -> (r: Option<String>)
    ensures
        match r {
            Some(t) => str_field(jv_fields(fs@), k@) == Some(t@),
            None => str_field(jv_fields(fs@), k@) is None,
        },
{
    match lookup(fs, k) {
        Some(v) => match v {
            JVal::Str(t) => Some(t.clone()),
            _ => None,
        },
        None => None,
    }
}

fn get_u32(fs: &Vec<(String, JVal)>, k: &str) -> (r: Option<u32>)
    ensures
        match r {
            Some(n) => u32_field(jv_fields(fs@), k@) == Some(n),
            None => u32_field(jv_fields(fs@), k@) is None,
        },
{
    match lookup(fs, k) {
        Some(v) => match v {
            JVal::Num(n) => Some(*n),
            _ => None,
        },
        None => None,
    }
}

fn get_opt_str(fs: &Vec<(String, JVal)>, k: &str) -> (r: Option<Option<String>>)
    ensures
        match r {
            Some(t) => opt_str_field(jv_fields(fs@), k@) == Some(t.deep_view()),
            None => opt_str_field(jv_fields(fs@), k@) is None,
        },
{
    match lookup(fs, k) {
        None => Some(None),
        Some(v) => match v {
            JVal::Null => Some(None),
            JVal::Str(t) => Some(Some(t.clone())),
            _ => None,
        },
    }
}

fn get_opt_u32(fs: &Vec<(String, JVal)>, k: &str) -> (r: Option<Option<u32>>)
    ensures
        match r {
            Some(t) => opt_u32_field(jv_fields(fs@), k@) == Some(t),
            None => opt_u32_field(jv_fields(fs@), k@) is None,
        },
{
    match lookup(fs, k) {
        None => Some(None),
        Some(v) => match v {
            JVal::Null => Some(None),
            JVal::Num(n) => Some(Some(*n)),
            _ => None,
        },
    }
}

proof fn lemma_strings_of_none(items: Seq<JValV>, i: int)
    requires
        0 <= i < items.len(),
        !(items[i] is Str),
    ensures
        strings_of(items) is None,
    decreases items.len(),
{
    if i == items.len() - 1 {
    } else {
        assert(items.drop_last()[i] == items[i]);
        lemma_strings_of_none(items.drop_last(), i);
    }
}

proof fn lemma_chapters_of_none(items: Seq<JValV>, i: int)
    requires
        0 <= i < items.len(),
        chapter_of(items[i]) is None,
    ensures
        chapters_of(items) is None,
    decreases items.len(),
{
    if i == items.len() - 1 {
    } else {
        assert(items.drop_last()[i] == items[i]);
        lemma_chapters_of_none(items.drop_last(), i);
    }
}

fn get_strings(items: &Vec<JVal>) -> (r: Option<Vec<String>>)
    ensures
        match r {
            Some(ts) => strings_of(jv_seq(items@)) == Some(ts.deep_view()),
            None => strings_of(jv_seq(items@)) is None,
        },
{
    proof {
        lemma_jv_seq_props(items@);
    }
    let ghost vs = jv_seq(items@);
    let mut acc: Vec<String> = Vec::new();
    let mut i: usize = 0;
    while i < items.len()
        invariant
            i <= items@.len(),
            vs == jv_seq(items@),
            vs.len() == items@.len(),
            forall|t: int| 0 <= t < items@.len() ==> vs[t] == jv(items@[t]),
            acc@.len() == i,
            strings_of(vs.take(i as int)) == Some(acc.deep_view()),
        decreases items@.len() - i,
    {
        let ghost prev = acc.deep_view();
        match &items[i] {
            JVal::Str(t) => {
                acc.push(t.clone());
            },
            _ => {
                proof {
                    lemma_strings_of_none(vs, i as int);
                }
                return None;
            },
        }
        proof {
            assert(vs.take(i + 1).drop_last() =~= vs.take(i as int));
            assert(vs.take(i + 1).last() == vs[i as int]);
            assert(acc.deep_view() =~= prev.push(acc@[i as int]@));
            assert(strings_of(vs.take(i + 1)) == Some(acc.deep_view()));
        }
        i = i + 1;
    }
    proof {
        assert(vs.take(items@.len() as int) =~= vs);
    }
    Some(acc)
}

fn author_from(v: &JVal) -> (r: Option<Author>)
    ensures
        match r {
            Some(a) => author_of(jv(*v)) == Some(a.deep_view()),
            None => author_of(jv(*v)) is None,
        },
{
    match v {
        JVal::Obj(fs) => {
            match (get_str(fs, "name"), get_str(fs, "link")) {
                (Some(name), Some(link)) => Some(Author { name, link }),
                _ => None,
            }
        },
        _ => None,
    }
}

fn meta_from(v: &JVal) -> (r: Option<Metadata>)
    ensures
        match r {
            Some(m) => meta_of(jv(*v)) == Some(m.deep_view()),
            None => meta_of(jv(*v)) is None,
        },
{
    match v {
        JVal::Obj(fs) => {
            let cat = match lookup(fs, "category") {
                Some(c) => match c {
                    JVal::Arr(items) => get_strings(items),
                    _ => None,
                },
                None => None,
            };
            match (
                cat,
                get_str(fs, "rating"),
                get_opt_str(fs, "language"),
                get_opt_str(fs, "genre"),
                get_opt_str(fs, "characters"),
                get_opt_str(fs, "chapters"),
                get_opt_str(fs, "words"),
                get_opt_str(fs, "status"),
                get_opt_str(fs, "reviews"),
                get_opt_str(fs, "favs"),
                get_opt_str(fs, "follows"),
            ) {
                (
                    Some(category),
                    Some(rating),
                    Some(language),
                    Some(genre),
                    Some(characters),
                    Some(chapters),
                    Some(words),
                    Some(status),
                    Some(reviews),
                    Some(favs),
                    Some(follows),
                ) => Some(
                    Metadata {
                        category,
                        rating,
                        language,
                        genre,
                        characters,
                        chapters,
                        words,
                        status,
                        reviews,
                        favs,
                        follows,
                    },
                ),
                _ => None,
            }
        },
        _ => None,
    }
}

fn chapter_from(v: &JVal) -> (r: Option<Chapter>)
    ensures
        match r {
            Some(c) => chapter_of(jv(*v)) == Some(c.deep_view()),
            None => chapter_of(jv(*v)) is None,
        },
{
    match v {
        JVal::Obj(fs) => {
            match (
                get_u32(fs, "num"),
                get_str(fs, "title"),
                get_str(fs, "url"),
                get_str(fs, "contents"),
                get_opt_str(fs, "error"),
            ) {
                (Some(num), Some(title), Some(url), Some(contents), Some(error)) => Some(
                    Chapter { num, title, url, contents, error },
                ),
                _ => None,
            }
        },
        _ => None,
    }
}

fn get_chapters(items: &Vec<JVal>) -> (r: Option<Vec<Chapter>>)
    ensures
        match r {
            Some(cs) => chapters_of(jv_seq(items@)) == Some(cs.deep_view()),
            None => chapters_of(jv_seq(items@)) is None,
        },
{
    proof {
        lemma_jv_seq_props(items@);
    }
    let ghost vs = jv_seq(items@);
    let mut acc: Vec<Chapter> = Vec::new();
    let mut i: usize = 0;
    while i < items.len()
        invariant
            i <= items@.len(),
            vs == jv_seq(items@),
            vs.len() == items@.len(),
            forall|t: int| 0 <= t < items@.len() ==> vs[t] == jv(items@[t]),
            acc@.len() == i,
            chapters_of(vs.take(i as int)) == Some(acc.deep_view()),
        decreases items@.len() - i,
    {
        let ghost prev = acc.deep_view();
        match chapter_from(&items[i]) {
            Some(c) => {
                acc.push(c);
            },
            None => {
                proof {
                    lemma_chapters_of_none(vs, i as int);
                }
                return None;
            },
        }
        proof {
            assert(vs.take(i + 1).drop_last() =~= vs.take(i as int));
            assert(vs.take(i + 1).last() == vs[i as int]);
            assert(acc.deep_view() =~= prev.push(acc@[i as int].deep_view()));
            assert(chapters_of(vs.take(i + 1)) == Some(acc.deep_view()));
        }
        i = i + 1;
    }
    proof {
        assert(vs.take(items@.len() as int) =~= vs);
    }
    Some(acc)
}

fn book_from(v: &JVal) -> (r: Option<Book>)
    ensures
        match r {
            Some(b) => book_of(jv(*v)) == Some(b.deep_view()),
            None => book_of(jv(*v)) is None,
        },
{
    match v {
        JVal::Obj(fs) => {
            let author = match lookup(fs, "author") {
                Some(a) => author_from(a),
                None => None,
            };
            let metadata = match lookup(fs, "metadata") {
                Some(m) => meta_from(m),
                None => None,
            };
            let chapters = match lookup(fs, "chapters") {
                Some(c) => match c {
                    JVal::Arr(items) => get_chapters(items),
                    _ => None,
                },
                None => None,
            };
            match (
                get_str(fs, "id"),
                get_str(fs, "source"),
                get_str(fs, "title"),
                get_str(fs, "blurb"),
                author,
                metadata,
                get_opt_u32(fs, "updated_time"),
                get_u32(fs, "created_time"),
                get_u32(fs, "download_time"),
                chapters,
            ) {
                (
                    Some(id),
                    Some(source),
                    Some(title),
                    Some(blurb),
                    Some(author),
                    Some(metadata),
                    Some(updated_time),
                    Some(created_time),
                    Some(download_time),
                    Some(chapters),
                ) => Some(
                    Book {
                        id,
                        source,
                        title,
                        blurb,
                        author,
                        metadata,
                        updated_time,
                        created_time,
                        download_time,
                        chapters,
                    },
                ),
                _ => None,
            }
        },
        _ => None,
    }
}

/// An absent optional text field embedded as a value: null.
pub open spec fn jv_opt_str(v: Option<Seq<char>>) -> JValV {
    match v {
        Option::None => JValV::Null,
        Option::Some(t) => JValV::Str(t),
    }
}

/// An absent optional number field embedded as a value: null.
pub open spec fn jv_opt_num(v: Option<u32>) -> JValV {
    match v {
        Option::None => JValV::Null,
        Option::Some(n) => JValV::Num(n),
    }
}

/// The canonical value tree of an author.
pub open spec fn jval_of_author(a: AuthorV) -> JValV {
    JValV::Obj(seq![("name"@, JValV::Str(a.name)), ("link"@, JValV::Str(a.link))])
}

/// The canonical value tree of a metadata record.
pub open spec fn jval_of_meta(m: MetadataV) -> JValV {
    JValV::Obj(
        seq![
            ("category"@, JValV::Arr(m.category.map(|i: int, t: Seq<char>| JValV::Str(t)))),
            ("rating"@, JValV::Str(m.rating)),
            ("language"@, jv_opt_str(m.language)),
            ("genre"@, jv_opt_str(m.genre)),
            ("characters"@, jv_opt_str(m.characters)),
            ("chapters"@, jv_opt_str(m.chapters)),
            ("words"@, jv_opt_str(m.words)),
            ("status"@, jv_opt_str(m.status)),
            ("reviews"@, jv_opt_str(m.reviews)),
            ("favs"@, jv_opt_str(m.favs)),
            ("follows"@, jv_opt_str(m.follows)),
        ],
    )
}

/// The canonical value tree of a chapter.
pub open spec fn jval_of_chapter(c: ChapterV) -> JValV {
    JValV::Obj(
        seq![
            ("num"@, JValV::Num(c.num)),
            ("title"@, JValV::Str(c.title)),
            ("url"@, JValV::Str(c.url)),
            ("contents"@, JValV::Str(c.contents)),
            ("error"@, jv_opt_str(c.error)),
        ],
    )
}

/// The canonical value tree of a whole book.
pub open spec fn jval_of_book(b: BookV) -> JValV {
    JValV::Obj(
        seq![
            ("id"@, JValV::Str(b.id)),
            ("source"@, JValV::Str(b.source)),
            ("title"@, JValV::Str(b.title)),
            ("blurb"@, JValV::Str(b.blurb)),
            ("author"@, jval_of_author(b.author)),
            ("metadata"@, jval_of_meta(b.metadata)),
            ("updated_time"@, jv_opt_num(b.updated_time)),
            ("created_time"@, JValV::Num(b.created_time)),
            ("download_time"@, JValV::Num(b.download_time)),
            ("chapters"@, JValV::Arr(b.chapters.map(|i: int, c: ChapterV| jval_of_chapter(c)))),
        ],
    )
}

proof fn lemma_lookup_at(fs: Seq<(Seq<char>, JValV)>, k: Seq<char>, j: int)
    requires
        0 <= j < fs.len(),
        fs[j].0 == k,
        forall|t: int| 0 <= t < j ==> fs[t].0 != k,
    ensures
        spec_lookup(fs, k) == Some(fs[j].1),
    decreases j,
{
    if j == 0 {
    } else {
        assert(spec_lookup(fs, k) == spec_lookup(fs.skip(1), k));
        assert forall|t: int| 0 <= t < j - 1 implies fs.skip(1)[t].0 != k by {
            assert(fs.skip(1)[t] == fs[t + 1]);
        }
        assert(fs.skip(1)[j - 1] == fs[j]);
        lemma_lookup_at(fs.skip(1), k, j - 1);
    }
}

proof fn lemma_strings_of_map(xs: Seq<Seq<char>>)
    ensures
        strings_of(xs.map(|i: int, t: Seq<char>| JValV::Str(t))) == Some(xs),
    decreases xs.len(),
{
    let m = xs.map(|i: int, t: Seq<char>| JValV::Str(t));
    if xs.len() == 0 {
        assert(xs =~= Seq::<Seq<char>>::empty());
    } else {
        lemma_strings_of_map(xs.drop_last());
        assert(m.drop_last() =~= xs.drop_last().map(|i: int, t: Seq<char>| JValV::Str(t)));
        assert(m.last() == JValV::Str(xs.last()));
        assert(xs.drop_last().push(xs.last()) =~= xs);
    }
}

proof fn lemma_author_value_round_trip(a: AuthorV)
    ensures
        author_of(jval_of_author(a)) == Some(a),
{
    let fs = seq![("name"@, JValV::Str(a.name)), ("link"@, JValV::Str(a.link))];
    reveal_strlit("name");
    reveal_strlit("link");
    lemma_texts_differ_at("link"@, "name"@, 0);
    lemma_lookup_at(fs, "name"@, 0);
    lemma_lookup_at(fs, "link"@, 1);
}

proof fn lemma_meta_value_round_trip(m: MetadataV)
    ensures
        meta_of(jval_of_meta(m)) == Some(m),
{
    let fs = jval_of_meta(m)->Obj_0;
    reveal_strlit("category");
    reveal_strlit("rating");
    reveal_strlit("language");
    reveal_strlit("genre");
    reveal_strlit("characters");
    reveal_strlit("chapters");
    reveal_strlit("words");
    reveal_strlit("status");
    reveal_strlit("reviews");
    reveal_strlit("favs");
    reveal_strlit("follows");
    lemma_texts_differ_at("rating"@, "category"@, 0);
    lemma_texts_differ_at("language"@, "category"@, 0);
    lemma_texts_differ_at("language"@, "rating"@, 0);
    lemma_texts_differ_at("genre"@, "category"@, 0);
    lemma_texts_differ_at("genre"@, "rating"@, 0);
    lemma_texts_differ_at("genre"@, "language"@, 0);
    lemma_texts_differ_at("characters"@, "category"@, 1);
    lemma_texts_differ_at("characters"@, "rating"@, 0);
    lemma_texts_differ_at("characters"@, "language"@, 0);
    lemma_texts_differ_at("characters"@, "genre"@, 0);
    lemma_texts_differ_at("chapters"@, "category"@, 1);
    lemma_texts_differ_at("chapters"@, "rating"@, 0);
    lemma_texts_differ_at("chapters"@, "language"@, 0);
    lemma_texts_differ_at("chapters"@, "genre"@, 0);
    lemma_texts_differ_at("chapters"@, "characters"@, 3);
    lemma_texts_differ_at("words"@, "category"@, 0);
    lemma_texts_differ_at("words"@, "rating"@, 0);
    lemma_texts_differ_at("words"@, "language"@, 0);
    lemma_texts_differ_at("words"@, "genre"@, 0);
    lemma_texts_differ_at("words"@, "characters"@, 0);
    lemma_texts_differ_at("words"@, "chapters"@, 0);
    lemma_texts_differ_at("status"@, "category"@, 0);
    lemma_texts_differ_at("status"@, "rating"@, 0);
    lemma_texts_differ_at("status"@, "language"@, 0);
    lemma_texts_differ_at("status"@, "genre"@, 0);
    lemma_texts_differ_at("status"@, "characters"@, 0);
    lemma_texts_differ_at("status"@, "chapters"@, 0);
    lemma_texts_differ_at("status"@, "words"@, 0);
    lemma_texts_differ_at("reviews"@, "category"@, 0);
    lemma_texts_differ_at("reviews"@, "rating"@, 1);
    lemma_texts_differ_at("reviews"@, "language"@, 0);
    lemma_texts_differ_at("reviews"@, "genre"@, 0);
    lemma_texts_differ_at("reviews"@, "characters"@, 0);
    lemma_texts_differ_at("reviews"@, "chapters"@, 0);
    lemma_texts_differ_at("reviews"@, "words"@, 0);
    lemma_texts_differ_at("reviews"@, "status"@, 0);
    lemma_texts_differ_at("favs"@, "category"@, 0);
    lemma_texts_differ_at("favs"@, "rating"@, 0);
    lemma_texts_differ_at("favs"@, "language"@, 0);
    lemma_texts_differ_at("favs"@, "genre"@, 0);
    lemma_texts_differ_at("favs"@, "characters"@, 0);
    lemma_texts_differ_at("favs"@, "chapters"@, 0);
    lemma_texts_differ_at("favs"@, "words"@, 0);
    lemma_texts_differ_at("favs"@, "status"@, 0);
    lemma_texts_differ_at("favs"@, "reviews"@, 0);
    lemma_texts_differ_at("follows"@, "category"@, 0);
    lemma_texts_differ_at("follows"@, "rating"@, 0);
    lemma_texts_differ_at("follows"@, "language"@, 0);
    lemma_texts_differ_at("follows"@, "genre"@, 0);
    lemma_texts_differ_at("follows"@, "characters"@, 0);
    lemma_texts_differ_at("follows"@, "chapters"@, 0);
    lemma_texts_differ_at("follows"@, "words"@, 0);
    lemma_texts_differ_at("follows"@, "status"@, 0);
    lemma_texts_differ_at("follows"@, "reviews"@, 0);
    lemma_texts_differ_at("follows"@, "favs"@, 1);
    lemma_lookup_at(fs, "category"@, 0);
    lemma_lookup_at(fs, "rating"@, 1);
    lemma_lookup_at(fs, "language"@, 2);
    lemma_lookup_at(fs, "genre"@, 3);
    lemma_lookup_at(fs, "characters"@, 4);
    lemma_lookup_at(fs, "chapters"@, 5);
    lemma_lookup_at(fs, "words"@, 6);
    lemma_lookup_at(fs, "status"@, 7);
    lemma_lookup_at(fs, "reviews"@, 8);
    lemma_lookup_at(fs, "favs"@, 9);
    lemma_lookup_at(fs, "follows"@, 10);
    lemma_strings_of_map(m.category);
}

proof fn lemma_chapter_value_round_trip(c: ChapterV)
    ensures
        chapter_of(jval_of_chapter(c)) == Some(c),
{
    let fs = jval_of_chapter(c)->Obj_0;
    reveal_strlit("num");
    reveal_strlit("title");
    reveal_strlit("url");
    reveal_strlit("contents");
    reveal_strlit("error");
    lemma_texts_differ_at("title"@, "num"@, 0);
    lemma_texts_differ_at("url"@, "num"@, 0);
    lemma_texts_differ_at("url"@, "title"@, 0);
    lemma_texts_differ_at("contents"@, "num"@, 0);
    lemma_texts_differ_at("contents"@, "title"@, 0);
    lemma_texts_differ_at("contents"@, "url"@, 0);
    lemma_texts_differ_at("error"@, "num"@, 0);
    lemma_texts_differ_at("error"@, "title"@, 0);
    lemma_texts_differ_at("error"@, "url"@, 0);
    lemma_texts_differ_at("error"@, "contents"@, 0);
    lemma_lookup_at(fs, "num"@, 0);
    lemma_lookup_at(fs, "title"@, 1);
    lemma_lookup_at(fs, "url"@, 2);
    lemma_lookup_at(fs, "contents"@, 3);
    lemma_lookup_at(fs, "error"@, 4);
}

proof fn lemma_chapters_of_map(cs: Seq<ChapterV>)
    ensures
        chapters_of(cs.map(|i: int, c: ChapterV| jval_of_chapter(c))) == Some(cs),
    decreases cs.len(),
{
    let m = cs.map(|i: int, c: ChapterV| jval_of_chapter(c));
    if cs.len() == 0 {
        assert(cs =~= Seq::<ChapterV>::empty());
    } else {
        lemma_chapters_of_map(cs.drop_last());
        assert(m.drop_last() =~= cs.drop_last().map(|i: int, c: ChapterV| jval_of_chapter(c)));
        assert(m.last() == jval_of_chapter(cs.last()));
        lemma_chapter_value_round_trip(cs.last());
        assert(cs.drop_last().push(cs.last()) =~= cs);
    }
}

/// Round trip at the value level: a book embedded as its canonical
/// value tree extracts back unchanged, field for field — the
/// extraction loses nothing, absent optional fields included.
pub proof fn lemma_book_value_round_trip(b: BookV)
    ensures
        book_of(jval_of_book(b)) == Some(b),
{
    let fs = jval_of_book(b)->Obj_0;
    reveal_strlit("id");
    reveal_strlit("source");
    reveal_strlit("title");
    reveal_strlit("blurb");
    reveal_strlit("author");
    reveal_strlit("metadata");
    reveal_strlit("updated_time");
    reveal_strlit("created_time");
    reveal_strlit("download_time");
    reveal_strlit("chapters");
    lemma_texts_differ_at("source"@, "id"@, 0);
    lemma_texts_differ_at("title"@, "id"@, 0);
    lemma_texts_differ_at("title"@, "source"@, 0);
    lemma_texts_differ_at("blurb"@, "id"@, 0);
    lemma_texts_differ_at("blurb"@, "source"@, 0);
    lemma_texts_differ_at("blurb"@, "title"@, 0);
    lemma_texts_differ_at("author"@, "id"@, 0);
    lemma_texts_differ_at("author"@, "source"@, 0);
    lemma_texts_differ_at("author"@, "title"@, 0);
    lemma_texts_differ_at("author"@, "blurb"@, 0);
    lemma_texts_differ_at("metadata"@, "id"@, 0);
    lemma_texts_differ_at("metadata"@, "source"@, 0);
    lemma_texts_differ_at("metadata"@, "title"@, 0);
    lemma_texts_differ_at("metadata"@, "blurb"@, 0);
    lemma_texts_differ_at("metadata"@, "author"@, 0);
    lemma_texts_differ_at("updated_time"@, "id"@, 0);
    lemma_texts_differ_at("updated_time"@, "source"@, 0);
    lemma_texts_differ_at("updated_time"@, "title"@, 0);
    lemma_texts_differ_at("updated_time"@, "blurb"@, 0);
    lemma_texts_differ_at("updated_time"@, "author"@, 0);
    lemma_texts_differ_at("updated_time"@, "metadata"@, 0);
    lemma_texts_differ_at("created_time"@, "id"@, 0);
    lemma_texts_differ_at("created_time"@, "source"@, 0);
    lemma_texts_differ_at("created_time"@, "title"@, 0);
    lemma_texts_differ_at("created_time"@, "blurb"@, 0);
    lemma_texts_differ_at("created_time"@, "author"@, 0);
    lemma_texts_differ_at("created_time"@, "metadata"@, 0);
    lemma_texts_differ_at("created_time"@, "updated_time"@, 0);
    lemma_texts_differ_at("download_time"@, "id"@, 0);
    lemma_texts_differ_at("download_time"@, "source"@, 0);
    lemma_texts_differ_at("download_time"@, "title"@, 0);
    lemma_texts_differ_at("download_time"@, "blurb"@, 0);
    lemma_texts_differ_at("download_time"@, "author"@, 0);
    lemma_texts_differ_at("download_time"@, "metadata"@, 0);
    lemma_texts_differ_at("download_time"@, "updated_time"@, 0);
    lemma_texts_differ_at("download_time"@, "created_time"@, 0);
    lemma_texts_differ_at("chapters"@, "id"@, 0);
    lemma_texts_differ_at("chapters"@, "source"@, 0);
    lemma_texts_differ_at("chapters"@, "title"@, 0);
    lemma_texts_differ_at("chapters"@, "blurb"@, 0);
    lemma_texts_differ_at("chapters"@, "author"@, 0);
    lemma_texts_differ_at("chapters"@, "metadata"@, 0);
    lemma_texts_differ_at("chapters"@, "updated_time"@, 0);
    lemma_texts_differ_at("chapters"@, "created_time"@, 1);
    lemma_texts_differ_at("chapters"@, "download_time"@, 0);
    lemma_lookup_at(fs, "id"@, 0);
    lemma_lookup_at(fs, "source"@, 1);
    lemma_lookup_at(fs, "title"@, 2);
    lemma_lookup_at(fs, "blurb"@, 3);
    lemma_lookup_at(fs, "author"@, 4);
    lemma_lookup_at(fs, "metadata"@, 5);
    lemma_lookup_at(fs, "updated_time"@, 6);
    lemma_lookup_at(fs, "created_time"@, 7);
    lemma_lookup_at(fs, "download_time"@, 8);
    lemma_lookup_at(fs, "chapters"@, 9);
    lemma_author_value_round_trip(b.author);
    lemma_meta_value_round_trip(b.metadata);
    lemma_chapters_of_map(b.chapters);
}

/// The hexadecimal digit character for a value below sixteen.
pub open spec fn hexd_char(d: u32) -> char {
    if d < 10 {
        ((48 + d) as u8) as char
    } else {
        ((87 + d) as u8) as char
    }
}

/// The serialized escape of one text character.
pub open spec fn ser_esc_char(c: char) -> Seq<char> {
    if c == '"' {
        "\\\""@
    } else if c == '\\' {
        "\\\\"@
    } else if c == '\n' {
        "\\n"@
    } else if c == '\r' {
        "\\r"@
    } else if c == '\t' {
        "\\t"@
    } else if (c as u32) < 32 {
        "\\u00"@ + seq![hexd_char((c as u32) / 16), hexd_char((c as u32) % 16)]
    } else {
        seq![c]
    }
}

/// The serialized escape of a text.
pub open spec fn ser_esc(s: Seq<char>) -> Seq<char>
    decreases s.len(),
{
    if s.len() == 0 {
        Seq::empty()
    } else {
        ser_esc_char(s[0]) + ser_esc(s.skip(1))
    }
}

proof fn lemma_ser_esc_push(t: Seq<char>, c: char)
    ensures
        ser_esc(t.push(c)) == ser_esc(t) + ser_esc_char(c),
    decreases t.len(),
{
    if t.len() == 0 {
        assert(t.push(c).skip(1) =~= Seq::<char>::empty());
        assert(t.push(c)[0] == c);
        assert(ser_esc(t.push(c)) == ser_esc_char(c) + ser_esc(Seq::<char>::empty()));
        assert(ser_esc_char(c) + Seq::<char>::empty() =~= ser_esc_char(c));
        assert(ser_esc(t) + ser_esc_char(c) =~= ser_esc_char(c));
    } else {
        assert(t.push(c).skip(1) =~= t.skip(1).push(c));
        lemma_ser_esc_push(t.skip(1), c);
        assert(t.push(c)[0] == t[0]);
        assert(ser_esc(t.push(c)) == ser_esc_char(t[0]) + ser_esc(t.skip(1).push(c)));
        assert(ser_esc_char(t[0]) + (ser_esc(t.skip(1)) + ser_esc_char(c)) =~= (ser_esc_char(t[0])
            + ser_esc(t.skip(1))) + ser_esc_char(c));
        assert(ser_esc(t) == ser_esc_char(t[0]) + ser_esc(t.skip(1)));
        assert(ser_esc(t) + ser_esc_char(c) == (ser_esc_char(t[0]) + ser_esc(t.skip(1)))
            + ser_esc_char(c));
        assert(ser_esc(t.push(c)) == ser_esc(t) + ser_esc_char(c));
    }
}

/// A serialized string token.
pub open spec fn ser_str(t: Seq<char>) -> Seq<char> {
    "\""@ + ser_esc(t) + "\""@
}

/// A serialized optional text member, written with a leading comma,
/// or nothing at all when the field is absent.
pub open spec fn ser_opt_member(name: Seq<char>, v: Option<Seq<char>>) -> Seq<char> {
    match v {
        Option::None => Seq::empty(),
        Option::Some(t) => ","@ + ser_str(name) + ":"@ + ser_str(t),
    }
}

fn push_json_str(t: &str, out: &mut String)
    ensures
        final(out)@ == old(out)@ + ser_str(t@),
{
    out.append("\"");
    let ghost oq = old(out)@ + "\""@;
    let len = t.unicode_len();
    let mut i: usize = 0;
    while i < len
        invariant
            i <= len,
            len == t@.len(),
            out@ == oq + ser_esc(t@.take(i as int)),
            oq == old(out)@ + "\""@,
        decreases len - i,
    {
        let c = t.get_char(i);
        let u = c as u32;
        if c == '"' {
            out.append("\\\"");
        } else if c == '\\' {
            out.append("\\\\");
        } else if c == '\n' {
            out.append("\\n");
        } else if c == '\r' {
            out.append("\\r");
        } else if c == '\t' {
            out.append("\\t");
        } else if u < 32 {
            out.append("\\u00");
            push_char(out, (48 + u / 16) as u8 as char);
            let lo = u % 16;
            if lo < 10 {
                push_char(out, (48 + lo) as u8 as char);
            } else {
                push_char(out, (87 + lo) as u8 as char);
            }
            proof {
                assert(hexd_char(u / 16) == ((48 + u / 16) as u8) as char);
                assert(oq + ser_esc(t@.take(i as int)) + "\\u00"@ + seq![hexd_char(u / 16)].push(
                    hexd_char(u % 16),
                ) =~= oq + ser_esc(t@.take(i as int)) + ser_esc_char(c));
            }
        } else {
            push_char(out, c);
            proof {
                assert(oq + ser_esc(t@.take(i as int)) + seq![c] =~= (oq + ser_esc(
                    t@.take(i as int),
                )).push(c));
            }
        }
        proof {
            assert(t@.take(i + 1) =~= t@.take(i as int).push(c));
            lemma_ser_esc_push(t@.take(i as int), c);
            crate::textutil::lemma_append_assoc(oq, ser_esc(t@.take(i as int)), ser_esc_char(c));
            assert(out@ == oq + ser_esc(t@.take(i + 1)));
        }
        i = i + 1;
    }
    out.append("\"");
    proof {
        assert(t@.take(len as int) =~= t@);
        crate::textutil::lemma_append_assoc(old(out)@, "\""@ + ser_esc(t@), "\""@);
        crate::textutil::lemma_append_assoc(old(out)@, "\""@, ser_esc(t@));
    }
}

fn push_opt_member(name: &str, v: &Option<String>, out: &mut String)
    ensures
        final(out)@ == old(out)@ + ser_opt_member(name@, v.deep_view()),
{
    match v {
        Option::None => {
            proof {
                assert(old(out)@ + ser_opt_member(name@, v.deep_view()) =~= old(out)@);
            }
        },
        Option::Some(t) => {
            out.append(",");
            push_json_str(name, out);
            out.append(":");
            push_json_str(t.as_str(), out);
            proof {
                assert(out@ =~= old(out)@ + ser_opt_member(name@, v.deep_view()));
            }
        },
    }
}

/// The serialized category list: its strings, comma-separated, in
/// brackets.
pub open spec fn ser_str_arr(xs: Seq<Seq<char>>) -> Seq<char>
    decreases xs.len(),
{
    if xs.len() == 0 {
        Seq::empty()
    } else if xs.len() == 1 {
        ser_str(xs[0])
    } else {
        ser_str_arr(xs.drop_last()) + ","@ + ser_str(xs.last())
    }
}

fn push_str_arr(xs: &Vec<String>, out: &mut String)
    ensures
        final(out)@ == old(out)@ + ser_str_arr(xs.deep_view()),
{
    let ghost ob = old(out)@;
    let mut i: usize = 0;
    while i < xs.len()
        invariant
            i <= xs@.len(),
            out@ == ob + ser_str_arr(xs.deep_view().take(i as int)),
            ob == old(out)@,
            xs.deep_view().len() == xs@.len(),
        decreases xs@.len() - i,
    {
        let ghost prev = ser_str_arr(xs.deep_view().take(i as int));
        if i > 0 {
            out.append(",");
        }
        push_json_str(xs[i].as_str(), out);
        proof {
            let vs = xs.deep_view();
            assert(vs.take(i + 1).drop_last() =~= vs.take(i as int));
            assert(vs.take(i + 1).last() == vs[i as int]);
            assert(vs[i as int] == xs@[i as int]@);
            if i == 0 {
                assert(prev =~= Seq::<char>::empty());
                assert(out@ =~= ob + ser_str_arr(vs.take(i + 1)));
            } else {
                assert(out@ =~= ob + ser_str_arr(vs.take(i + 1)));
            }
        }
        i = i + 1;
    }
    proof {
        assert(xs.deep_view().take(xs@.len() as int) =~= xs.deep_view());
    }
}

/// A serialized author object.
pub open spec fn ser_author(a: AuthorV) -> Seq<char> {
    "{\"name\":"@ + ser_str(a.name) + ",\"link\":"@ + ser_str(a.link) + "}"@
}

/// A serialized metadata object: the required members first, then
/// each present optional member, absent ones omitted.
pub open spec fn ser_meta(m: MetadataV) -> Seq<char> {
    "{\"category\":["@ + ser_str_arr(m.category) + "],\"rating\":"@ + ser_str(m.rating)
        + ser_opt_member("language"@, m.language) + ser_opt_member("genre"@, m.genre)
        + ser_opt_member("characters"@, m.characters) + ser_opt_member("chapters"@, m.chapters)
        + ser_opt_member("words"@, m.words) + ser_opt_member("status"@, m.status)
        + ser_opt_member("reviews"@, m.reviews) + ser_opt_member("favs"@, m.favs)
        + ser_opt_member("follows"@, m.follows) + "}"@
}

/// A serialized chapter object.
pub open spec fn ser_chapter(c: ChapterV) -> Seq<char> {
    "{\"num\":"@ + crate::textutil::dec_str(c.num as nat) + ",\"title\":"@ + ser_str(c.title)
        + ",\"url\":"@ + ser_str(c.url) + ",\"contents\":"@ + ser_str(c.contents)
        + ser_opt_member("error"@, c.error) + "}"@
}

/// The serialized chapter list.
pub open spec fn ser_chapters(cs: Seq<ChapterV>) -> Seq<char>
    decreases cs.len(),
{
    if cs.len() == 0 {
        Seq::empty()
    } else if cs.len() == 1 {
        ser_chapter(cs[0])
    } else {
        ser_chapters(cs.drop_last()) + ","@ + ser_chapter(cs.last())
    }
}

/// A whole serialized book: every required member in a fixed order,
/// then `updated_time` only when present.
pub open spec fn ser_book(b: BookV) -> Seq<char> {
    "{\"id\":"@ + ser_str(b.id) + ",\"source\":"@ + ser_str(b.source) + ",\"title\":"@ + ser_str(
        b.title,
    ) + ",\"blurb\":"@ + ser_str(b.blurb) + ",\"author\":"@ + ser_author(b.author)
        + ",\"metadata\":"@ + ser_meta(b.metadata) + ",\"created_time\":"@ + crate::textutil::dec_str(
        b.created_time as nat,
    ) + ",\"download_time\":"@ + crate::textutil::dec_str(b.download_time as nat)
        + ",\"chapters\":["@ + ser_chapters(b.chapters) + "]"@ + (match b.updated_time {
        Option::None => Seq::<char>::empty(),
        Option::Some(u) => ",\"updated_time\":"@ + crate::textutil::dec_str(u as nat),
    }) + "}"@
}

fn push_author(a: &Author, out: &mut String)
    ensures
        final(out)@ == old(out)@ + ser_author(a.deep_view()),
{
    out.append("{\"name\":");
    push_json_str(a.name.as_str(), out);
    out.append(",\"link\":");
    push_json_str(a.link.as_str(), out);
    out.append("}");
    proof {
        assert(out@ =~= old(out)@ + ser_author(a.deep_view()));
    }
}

#[verifier::rlimit(100)]
fn push_meta(m: &Metadata, out: &mut String)
    ensures
        final(out)@ == old(out)@ + ser_meta(m.deep_view()),
{
    out.append("{\"category\":[");
    push_str_arr(&m.category, out);
    out.append("],\"rating\":");
    push_json_str(m.rating.as_str(), out);
    push_opt_member("language", &m.language, out);
    push_opt_member("genre", &m.genre, out);
    push_opt_member("characters", &m.characters, out);
    push_opt_member("chapters", &m.chapters, out);
    push_opt_member("words", &m.words, out);
    push_opt_member("status", &m.status, out);
    push_opt_member("reviews", &m.reviews, out);
    push_opt_member("favs", &m.favs, out);
    push_opt_member("follows", &m.follows, out);
    out.append("}");
    proof {
        let h = old(out)@;
        let mv = m.deep_view();
        let m1 = "{\"category\":["@;
        let m2 = ser_str_arr(mv.category);
        let m3 = "],\"rating\":"@;
        let m4 = ser_str(mv.rating);
        let m5 = ser_opt_member("language"@, mv.language);
        let m6 = ser_opt_member("genre"@, mv.genre);
        let m7 = ser_opt_member("characters"@, mv.characters);
        let m8 = ser_opt_member("chapters"@, mv.chapters);
        let m9 = ser_opt_member("words"@, mv.words);
        let m10 = ser_opt_member("status"@, mv.status);
        let m11 = ser_opt_member("reviews"@, mv.reviews);
        let m12 = ser_opt_member("favs"@, mv.favs);
        let m13 = ser_opt_member("follows"@, mv.follows);
        let m14 = "}"@;
        crate::textutil::lemma_append_assoc(h, m1, m2);
        crate::textutil::lemma_append_assoc(h, m1 + m2, m3);
        crate::textutil::lemma_append_assoc(h, m1 + m2 + m3, m4);
        crate::textutil::lemma_append_assoc(h, m1 + m2 + m3 + m4, m5);
        crate::textutil::lemma_append_assoc(h, m1 + m2 + m3 + m4 + m5, m6);
        crate::textutil::lemma_append_assoc(h, m1 + m2 + m3 + m4 + m5 + m6, m7);
        crate::textutil::lemma_append_assoc(h, m1 + m2 + m3 + m4 + m5 + m6 + m7, m8);
        crate::textutil::lemma_append_assoc(h, m1 + m2 + m3 + m4 + m5 + m6 + m7 + m8, m9);
        crate::textutil::lemma_append_assoc(h, m1 + m2 + m3 + m4 + m5 + m6 + m7 + m8 + m9, m10);
        crate::textutil::lemma_append_assoc(h, m1 + m2 + m3 + m4 + m5 + m6 + m7 + m8 + m9 + m10, m11);
        crate::textutil::lemma_append_assoc(h, m1 + m2 + m3 + m4 + m5 + m6 + m7 + m8 + m9 + m10 + m11, m12);
        crate::textutil::lemma_append_assoc(h, m1 + m2 + m3 + m4 + m5 + m6 + m7 + m8 + m9 + m10 + m11 + m12, m13);
        crate::textutil::lemma_append_assoc(h, m1 + m2 + m3 + m4 + m5 + m6 + m7 + m8 + m9 + m10 + m11 + m12 + m13, m14);
        assert(ser_meta(mv) == m1 + m2 + m3 + m4 + m5 + m6 + m7 + m8 + m9 + m10 + m11 + m12 + m13 + m14);
        assert(out@ == old(out)@ + ser_meta(mv));
    }
}

fn push_chapter(c: &Chapter, out: &mut String)
    ensures
        final(out)@ == old(out)@ + ser_chapter(c.deep_view()),
{
    out.append("{\"num\":");
    crate::textutil::push_dec_u32(c.num, out);
    out.append(",\"title\":");
    push_json_str(c.title.as_str(), out);
    out.append(",\"url\":");
    push_json_str(c.url.as_str(), out);
    out.append(",\"contents\":");
    push_json_str(c.contents.as_str(), out);
    push_opt_member("error", &c.error, out);
    out.append("}");
    proof {
        assert(out@ =~= old(out)@ + ser_chapter(c.deep_view()));
    }
}

fn push_chapters(cs: &Vec<Chapter>, out: &mut String)
    ensures
        final(out)@ == old(out)@ + ser_chapters(cs.deep_view()),
{
    let ghost ob = old(out)@;
    let mut i: usize = 0;
    while i < cs.len()
        invariant
            i <= cs@.len(),
            out@ == ob + ser_chapters(cs.deep_view().take(i as int)),
            ob == old(out)@,
            cs.deep_view().len() == cs@.len(),
        decreases cs@.len() - i,
    {
        let ghost prev = ser_chapters(cs.deep_view().take(i as int));
        if i > 0 {
            out.append(",");
        }
        push_chapter(&cs[i], out);
        proof {
            let vs = cs.deep_view();
            assert(vs.take(i + 1).drop_last() =~= vs.take(i as int));
            assert(vs.take(i + 1).last() == vs[i as int]);
            assert(vs[i as int] == cs@[i as int].deep_view());
            if i == 0 {
                assert(prev =~= Seq::<char>::empty());
                assert(out@ =~= ob + ser_chapters(vs.take(i + 1)));
            } else {
                assert(out@ =~= ob + ser_chapters(vs.take(i + 1)));
            }
        }
        i = i + 1;
    }
    proof {
        assert(cs.deep_view().take(cs@.len() as int) =~= cs.deep_view());
    }
}

/// Serializes a book to the input text format, canonically: fixed
/// member order, no whitespace, absent optional members omitted.
#[verifier::rlimit(100)]
pub fn book_to_json(book: &Book) -> (r: String)
    ensures
        r@ == ser_book(book.deep_view()),
{
    let mut out = String::from_str("{\"id\":");
    push_json_str(book.id.as_str(), &mut out);
    out.append(",\"source\":");
    push_json_str(book.source.as_str(), &mut out);
    out.append(",\"title\":");
    push_json_str(book.title.as_str(), &mut out);
    out.append(",\"blurb\":");
    push_json_str(book.blurb.as_str(), &mut out);
    out.append(",\"author\":");
    push_author(&book.author, &mut out);
    out.append(",\"metadata\":");
    push_meta(&book.metadata, &mut out);
    out.append(",\"created_time\":");
    crate::textutil::push_dec_u32(book.created_time, &mut out);
    out.append(",\"download_time\":");
    crate::textutil::push_dec_u32(book.download_time, &mut out);
    out.append(",\"chapters\":[");
    push_chapters(&book.chapters, &mut out);
    out.append("]");
    proof {
        if book.updated_time is None {
            let x = out@;
            assert(x + Seq::<char>::empty() =~= x);
        }
    }
    match &book.updated_time {
        Option::None => {},
        Option::Some(u) => {
            out.append(",\"updated_time\":");
            crate::textutil::push_dec_u32(*u, &mut out);
        },
    }
    out.append("}");
    proof {
        assert(out@ == ser_book(book.deep_view()));
    }
    out
}

/// Parses one input text into a [`Book`]. Exactly the texts that the
/// grammar accepts and that hold every required member with its
/// required type yield a book; every other text yields a parse
/// error.
pub fn parse_book(s: &str) -> (r: Result<Book, Error>)
    ensures
        match r {
            Ok(b) => spec_parse_book(s@) == Some(b.deep_view()),
            Err(e) => spec_parse_book(s@) is None && e matches Error::ParseError(_),
        },
{
    match parse_text_value(s) {
        None => Err(Error::ParseError(String::from_str("the input is not a well-formed document"))),
        Some(v) => match book_from(&v) {
            Some(b) => Ok(b),
            None => Err(
                Error::ParseError(
                    String::from_str("the document does not have the shape of a book"),
                ),
            ),
        },
    }
}

} // verus!
