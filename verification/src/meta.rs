//! Parsing of the leading metadata block: structured `key = value` text with
//! the optional keys `title` (string), `date` (date-time), `tags` (list of
//! strings), `ghcommentid` (integer) and `ghcommentauthors` (list of strings).
//!
//! The grammar is a line-based key/value record: one assignment per line,
//! basic strings with escapes, single-line arrays of strings, integers, and
//! RFC 3339 style date-times with optional sub-second precision and optional
//! `Z` or minute offsets.  Unknown keys are accepted and ignored; a duplicate
//! key, an ill-formed value, or a wrongly typed value for a known key makes
//! the whole block ill-formed, and the caller falls back to passthrough.

use vstd::prelude::*;
use crate::datetime::{valid_date, valid_date_exec, Date, Datetime, Time, UtcOffset};
use crate::strutil::{push_char, str_chars};

verus! {

/// The fields a metadata block can supply; absent fields stay `None`.
#[derive(Debug)]
pub struct MetaFields {
    pub title: Option<String>,
    pub date: Option<Datetime>,
    pub tags: Option<Vec<String>>,
    pub ghcommentid: Option<u32>,
    pub ghcommentauthors: Option<Vec<String>>,
}

/// Spec-level metadata fields.
pub struct MetaFieldsV {
    pub title: Option<Seq<char>>,
    pub date: Option<Datetime>,
    pub tags: Option<Seq<Seq<char>>>,
    pub ghcommentid: Option<u32>,
    pub ghcommentauthors: Option<Seq<Seq<char>>>,
}

pub open spec fn strs_view(v: Seq<String>) -> Seq<Seq<char>> {
    v.map_values(|s: String| s@)
}

impl View for MetaFields {
    type V = MetaFieldsV;

    open spec fn view(&self) -> MetaFieldsV {
        MetaFieldsV {
            title: match self.title {
                Option::Some(t) => Option::Some(t@),
                Option::None => Option::None,
            },
            date: self.date,
            tags: match self.tags {
                Option::Some(t) => Option::Some(strs_view(t@)),
                Option::None => Option::None,
            },
            ghcommentid: self.ghcommentid,
            ghcommentauthors: match self.ghcommentauthors {
                Option::Some(t) => Option::Some(strs_view(t@)),
                Option::None => Option::None,
            },
        }
    }
}

pub open spec fn is_ws(c: char) -> bool {
    c == ' ' || c == '\t'
}

pub open spec fn is_digit(c: char) -> bool {
    48 <= c as u32 <= 57
}

pub open spec fn is_key_char(c: char) -> bool {
    (97 <= c as u32 <= 122) || (65 <= c as u32 <= 90) || is_digit(c) || c == '-' || c == '_'
}

/// First position at or after `i` holding no space or tab.
pub open spec fn sp_skip_ws(s: Seq<char>, i: int) -> int
    decreases s.len() - i,
{
    if 0 <= i < s.len() && is_ws(s[i]) {
        sp_skip_ws(s, i + 1)
    } else {
        i
    }
}

/// First position at or after `i` holding no key character.
pub open spec fn sp_skip_key(s: Seq<char>, i: int) -> int
    decreases s.len() - i,
{
    if 0 <= i < s.len() && is_key_char(s[i]) {
        sp_skip_key(s, i + 1)
    } else {
        i
    }
}

/// First position at or after `i` holding no decimal digit.
pub open spec fn sp_skip_digits(s: Seq<char>, i: int) -> int
    decreases s.len() - i,
{
    if 0 <= i < s.len() && is_digit(s[i]) {
        sp_skip_digits(s, i + 1)
    } else {
        i
    }
}

/// First position at or after `i` holding a line feed, or the end.
pub open spec fn sp_line_end(s: Seq<char>, i: int) -> int
    decreases s.len() - i,
{
    if 0 <= i < s.len() && s[i] != '\n' {
        sp_line_end(s, i + 1)
    } else {
        i
    }
}

proof fn lemma_skip_bounds(s: Seq<char>, i: int)
    requires
        0 <= i <= s.len(),
    ensures
        i <= sp_skip_ws(s, i) <= s.len(),
        i <= sp_skip_key(s, i) <= s.len(),
        i <= sp_skip_digits(s, i) <= s.len(),
        i <= sp_line_end(s, i) <= s.len(),
    decreases s.len() - i,
{
    if i < s.len() {
        lemma_skip_bounds(s, i + 1);
    }
}

/// The escape character `c` stands for, if any.
pub open spec fn sp_unescape(c: char) -> Option<char> {
    if c == 'b' {
        Option::Some('\u{0008}')
    } else if c == 't' {
        Option::Some('\t')
    } else if c == 'n' {
        Option::Some('\n')
    } else if c == 'f' {
        Option::Some('\u{000C}')
    } else if c == 'r' {
        Option::Some('\r')
    } else if c == '"' {
        Option::Some('"')
    } else if c == '\\' {
        Option::Some('\\')
    } else {
        Option::None
    }
}

/// Rest of a basic string, starting just after the opening quote: the decoded
/// content and the position just past the closing quote.
pub open spec fn sp_string_tail(s: Seq<char>, i: int) -> Option<(Seq<char>, int)>
    decreases s.len() - i,
{
    if i < 0 || i >= s.len() {
        Option::None
    } else if s[i] == '"' {
        Option::Some((Seq::empty(), i + 1))
    } else if s[i] == '\\' {
        if i + 1 >= s.len() {
            Option::None
        } else {
            match sp_unescape(s[i + 1]) {
                Option::None => Option::None,
                Option::Some(c) => match sp_string_tail(s, i + 2) {
                    Option::None => Option::None,
                    Option::Some(p) => Option::Some((seq![c] + p.0, p.1)),
                },
            }
        }
    } else {
        match sp_string_tail(s, i + 1) {
            Option::None => Option::None,
            Option::Some(p) => Option::Some((seq![s[i]] + p.0, p.1)),
        }
    }
}

proof fn lemma_string_tail_advances(s: Seq<char>, i: int)
    requires
        0 <= i <= s.len(),
    ensures
        sp_string_tail(s, i) matches Option::Some(p) ==> i + 1 <= p.1 <= s.len(),
    decreases s.len() - i,
{
    if i < s.len() {
        if s[i] == '\\' {
            if i + 2 <= s.len() {
                lemma_string_tail_advances(s, i + 2);
            }
        } else {
            lemma_string_tail_advances(s, i + 1);
        }
    }
}

/// Rest of a single-line array of strings, starting just after the opening
/// bracket: the elements and the position just past the closing bracket.
pub open spec fn sp_array_tail(s: Seq<char>, i: int) -> Option<(Seq<Seq<char>>, int)>
    decreases s.len() - i,
        via sp_array_tail_dec
{
    if i < 0 {
        Option::None
    } else {
        let j = sp_skip_ws(s, i);
        if j >= s.len() {
            Option::None
        } else if s[j] == ']' {
            Option::Some((Seq::empty(), j + 1))
        } else if s[j] == '"' {
            match sp_string_tail(s, j + 1) {
                Option::None => Option::None,
                Option::Some(e) => {
                    let k = sp_skip_ws(s, e.1);
                    if k >= s.len() {
                        Option::None
                    } else if s[k] == ',' {
                        match sp_array_tail(s, k + 1) {
                            Option::None => Option::None,
                            Option::Some(rest) => Option::Some((seq![e.0] + rest.0, rest.1)),
                        }
                    } else if s[k] == ']' {
                        Option::Some((seq![e.0], k + 1))
                    } else {
                        Option::None
                    }
                },
            }
        } else {
            Option::None
        }
    }
}

#[via_fn]
proof fn sp_array_tail_dec(s: Seq<char>, i: int) {
    if 0 <= i <= s.len() {
        lemma_skip_bounds(s, i);
        let j = sp_skip_ws(s, i);
        if j < s.len() && s[j] == '"' {
            lemma_string_tail_advances(s, j + 1);
            match sp_string_tail(s, j + 1) {
                Option::Some(e) => {
                    lemma_skip_bounds(s, e.1);
                },
                Option::None => {},
            }
        }
    }
}

proof fn lemma_array_tail_advances(s: Seq<char>, i: int)
    requires
        0 <= i <= s.len(),
    ensures
        sp_array_tail(s, i) matches Option::Some(p) ==> i < p.1 <= s.len(),
    decreases s.len() - i,
{
    lemma_skip_bounds(s, i);
    let j = sp_skip_ws(s, i);
    if j < s.len() && s[j] == '"' {
        lemma_string_tail_advances(s, j + 1);
        match sp_string_tail(s, j + 1) {
            Option::Some(e) => {
                lemma_skip_bounds(s, e.1);
                let k = sp_skip_ws(s, e.1);
                if k < s.len() && s[k] == ',' {
                    lemma_array_tail_advances(s, k + 1);
                }
            },
            Option::None => {},
        }
    }
}

/// Numeric value of the digit run `s[i..j)`.
pub open spec fn sp_digits_val(s: Seq<char>, i: int, j: int) -> int
    decreases j - i,
{
    if j <= i {
        0
    } else {
        sp_digits_val(s, i, j - 1) * 10 + (s[j - 1] as u32 - 48)
    }
}

proof fn lemma_digits_val_bounds(s: Seq<char>, i: int, j: int)
    requires
        0 <= i <= j <= s.len(),
        forall|m: int| i <= m < j ==> is_digit(s[m]),
    ensures
        0 <= sp_digits_val(s, i, j) < pow10(j - i),
    decreases j - i,
{
    if j > i {
        lemma_digits_val_bounds(s, i, j - 1);
    }
}

proof fn lemma_pow10_concrete()
    ensures
        pow10(0) == 1,
        pow10(1) == 10,
        pow10(2) == 100,
        pow10(3) == 1000,
        pow10(4) == 10000,
        pow10(5) == 100000,
        pow10(6) == 1000000,
        pow10(7) == 10000000,
        pow10(8) == 100000000,
        pow10(9) == 1000000000,
        pow10(17) == 100000000000000000,
        pow10(18) == 1000000000000000000,
{
    assert(pow10(0) == 1);
    assert(pow10(1) == 10);
    assert(pow10(2) == 100);
    assert(pow10(3) == 1000);
    assert(pow10(4) == 10000);
    assert(pow10(5) == 100000);
    assert(pow10(6) == 1000000);
    assert(pow10(7) == 10000000);
    assert(pow10(8) == 100000000);
    assert(pow10(9) == 1000000000);
    assert(pow10(10) == 10000000000);
    assert(pow10(11) == 100000000000);
    assert(pow10(12) == 1000000000000);
    assert(pow10(13) == 10000000000000);
    assert(pow10(14) == 100000000000000);
    assert(pow10(15) == 1000000000000000);
    assert(pow10(16) == 10000000000000000);
    assert(pow10(17) == 100000000000000000);
    assert(pow10(18) == 1000000000000000000);
}

/// A two-digit number at exactly `i..i+2`.
pub open spec fn sp_d2(s: Seq<char>, i: int) -> Option<int> {
    if 0 <= i && i + 2 <= s.len() && is_digit(s[i]) && is_digit(s[i + 1]) {
        Option::Some(sp_digits_val(s, i, i + 2))
    } else {
        Option::None
    }
}

/// A time of day `HH:MM:SS` with an optional fractional part, starting at
/// `i`: the time and the position just past it.  Out-of-range parts are
/// ill-formed.  Of the fraction the first nine digits are kept, as
/// nanoseconds.
pub open spec fn sp_time_tail(s: Seq<char>, i: int) -> Option<(Time, int)> {
    if i < 0 {
        Option::None
    } else {
        match (sp_d2(s, i), sp_d2(s, i + 3), sp_d2(s, i + 6)) {
            (Option::Some(h), Option::Some(m), Option::Some(sec)) => {
                if i + 5 < s.len() && s[i + 2] == ':' && s[i + 5] == ':' && h <= 23 && m <= 59
                    && sec <= 59 {
                    let j = i + 8;
                    if j < s.len() && s[j] == '.' {
                        let k = sp_skip_digits(s, j + 1);
                        if k == j + 1 {
                            Option::None
                        } else {
                            let nd = if k - (j + 1) > 9 {
                                9int
                            } else {
                                k - (j + 1)
                            };
                            let nano = sp_digits_val(s, j + 1, j + 1 + nd) * pow10(9 - nd);
                            Option::Some(
                                (
                                    Time {
                                        hour: h as u8,
                                        minute: m as u8,
                                        second: sec as u8,
                                        nanosecond: nano as u32,
                                    },
                                    k,
                                ),
                            )
                        }
                    } else {
                        Option::Some(
                            (
                                Time {
                                    hour: h as u8,
                                    minute: m as u8,
                                    second: sec as u8,
                                    nanosecond: 0,
                                },
                                j,
                            ),
                        )
                    }
                } else {
                    Option::None
                }
            },
            _ => Option::None,
        }
    }
}

pub open spec fn pow10(e: int) -> int
    decreases e,
{
    if e <= 0 {
        1
    } else {
        10 * pow10(e - 1)
    }
}

/// A UTC offset starting at `i`: `Z`, `z`, or `+HH:MM` / `-HH:MM`.
pub open spec fn sp_offset_tail(s: Seq<char>, i: int) -> Option<(UtcOffset, int)> {
    if 0 <= i < s.len() && (s[i] == 'Z' || s[i] == 'z') {
        Option::Some((UtcOffset::Zulu, i + 1))
    } else if 0 <= i < s.len() && (s[i] == '+' || s[i] == '-') {
        match (sp_d2(s, i + 1), sp_d2(s, i + 4)) {
            (Option::Some(h), Option::Some(m)) => {
                if i + 3 < s.len() && s[i + 3] == ':' && h <= 23 && m <= 59 {
                    let mins = h * 60 + m;
                    if s[i] == '-' {
                        Option::Some((UtcOffset::Minutes((-mins) as i16), i + 6))
                    } else {
                        Option::Some((UtcOffset::Minutes(mins as i16), i + 6))
                    }
                } else {
                    Option::None
                }
            },
            _ => Option::None,
        }
    } else {
        Option::None
    }
}

/// A date-time starting at `i`: `YYYY-MM-DD`, optionally followed by a time
/// separated by `T`, `t` or a space, optionally followed by an offset.  An
/// impossible calendar date is ill-formed.
pub open spec fn sp_date_tail(s: Seq<char>, i: int) -> Option<(Datetime, int)> {
    if i < 0 || i + 10 > s.len() {
        Option::None
    } else if !(is_digit(s[i]) && is_digit(s[i + 1]) && is_digit(s[i + 2]) && is_digit(s[i + 3])
        && s[i + 4] == '-' && sp_d2(s, i + 5) is Some && s[i + 7] == '-' && sp_d2(
        s,
        i + 8,
    ) is Some) {
        Option::None
    } else {
        let d = Date {
            year: sp_digits_val(s, i, i + 4) as u16,
            month: sp_d2(s, i + 5)->0 as u8,
            day: sp_d2(s, i + 8)->0 as u8,
        };
        if !valid_date(d) {
            Option::None
        } else {
            let j = i + 10;
            if j < s.len() && (s[j] == 'T' || s[j] == 't') {
                match sp_time_tail(s, j + 1) {
                    Option::None => Option::None,
                    Option::Some(t) => match sp_offset_tail(s, t.1) {
                        Option::Some(o) => Option::Some(
                            (
                                Datetime {
                                    date: Option::Some(d),
                                    time: Option::Some(t.0),
                                    offset: Option::Some(o.0),
                                },
                                o.1,
                            ),
                        ),
                        Option::None => Option::Some(
                            (
                                Datetime {
                                    date: Option::Some(d),
                                    time: Option::Some(t.0),
                                    offset: Option::None,
                                },
                                t.1,
                            ),
                        ),
                    },
                }
            } else if j < s.len() && s[j] == ' ' && sp_time_tail(s, j + 1) is Some {
                let t = sp_time_tail(s, j + 1)->0;
                match sp_offset_tail(s, t.1) {
                    Option::Some(o) => Option::Some(
                        (
                            Datetime {
                                date: Option::Some(d),
                                time: Option::Some(t.0),
                                offset: Option::Some(o.0),
                            },
                            o.1,
                        ),
                    ),
                    Option::None => Option::Some(
                        (
                            Datetime {
                                date: Option::Some(d),
                                time: Option::Some(t.0),
                                offset: Option::None,
                            },
                            t.1,
                        ),
                    ),
                }
            } else {
                Option::Some(
                    (
                        Datetime {
                            date: Option::Some(d),
                            time: Option::None,
                            offset: Option::None,
                        },
                        j,
                    ),
                )
            }
        }
    }
}

/// Spec-level value of one assignment.
pub enum ValueV {
    Str(Seq<char>),
    Arr(Seq<Seq<char>>),
    Int(int),
    Dt(Datetime),
}

/// The value of one assignment.
pub enum Value {
    Str(String),
    Arr(Vec<String>),
    Int(i64),
    Dt(Datetime),
}

impl View for Value {
    type V = ValueV;

    open spec fn view(&self) -> ValueV {
        match self {
            Value::Str(s) => ValueV::Str(s@),
            Value::Arr(a) => ValueV::Arr(strs_view(a@)),
            Value::Int(n) => ValueV::Int(*n as int),
            Value::Dt(d) => ValueV::Dt(*d),
        }
    }
}

/// An unsigned integer run starting at `i`: at most 18 digits, no leading
/// zero (unless the value is a lone zero).
pub open spec fn sp_uint_tail(s: Seq<char>, i: int) -> Option<(int, int)> {
    if i < 0 {
        Option::None
    } else {
        let j = sp_skip_digits(s, i);
        if j == i || j - i > 18 {
            Option::None
        } else if j - i > 1 && s[i] == '0' {
            Option::None
        } else {
            Option::Some((sp_digits_val(s, i, j), j))
        }
    }
}

/// A value starting at `i`: a basic string, a single-line array of strings,
/// an integer, or a date-time.
pub open spec fn sp_value(s: Seq<char>, i: int) -> Option<(ValueV, int)> {
    if i < 0 || i >= s.len() {
        Option::None
    } else if s[i] == '"' {
        match sp_string_tail(s, i + 1) {
            Option::Some(p) => Option::Some((ValueV::Str(p.0), p.1)),
            Option::None => Option::None,
        }
    } else if s[i] == '[' {
        match sp_array_tail(s, i + 1) {
            Option::Some(p) => Option::Some((ValueV::Arr(p.0), p.1)),
            Option::None => Option::None,
        }
    } else if s[i] == '+' || s[i] == '-' {
        match sp_uint_tail(s, i + 1) {
            Option::Some(p) => Option::Some(
                (
                    ValueV::Int(
                        if s[i] == '-' {
                            -p.0
                        } else {
                            p.0
                        },
                    ),
                    p.1,
                ),
            ),
            Option::None => Option::None,
        }
    } else if is_digit(s[i]) {
        let j = sp_skip_digits(s, i);
        if j - i == 4 && j < s.len() && s[j] == '-' {
            match sp_date_tail(s, i) {
                Option::Some(p) => Option::Some((ValueV::Dt(p.0), p.1)),
                Option::None => Option::None,
            }
        } else if j - i == 2 && j < s.len() && s[j] == ':' {
            match sp_time_tail(s, i) {
                Option::Some(p) => Option::Some(
                    (
                        ValueV::Dt(
                            Datetime {
                                date: Option::None,
                                time: Option::Some(p.0),
                                offset: Option::None,
                            },
                        ),
                        p.1,
                    ),
                ),
                Option::None => Option::None,
            }
        } else {
            match sp_uint_tail(s, i) {
                Option::Some(p) => Option::Some((ValueV::Int(p.0), p.1)),
                Option::None => Option::None,
            }
        }
    } else {
        Option::None
    }
}

/// Spec-level reading of one line.
pub enum LineV {
    Blank,
    Entry(Seq<char>, ValueV),
    Bad,
}

/// One line: blank or comment; or `key = value` with an optional trailing
/// comment; anything else is ill-formed.
pub open spec fn sp_line(l: Seq<char>) -> LineV {
    let i = sp_skip_ws(l, 0);
    if i >= l.len() || l[i] == '#' {
        LineV::Blank
    } else {
        let j = sp_skip_key(l, i);
        if j == i {
            LineV::Bad
        } else {
            let k = sp_skip_ws(l, j);
            if k >= l.len() || l[k] != '=' {
                LineV::Bad
            } else {
                let v = sp_skip_ws(l, k + 1);
                match sp_value(l, v) {
                    Option::None => LineV::Bad,
                    Option::Some(p) => {
                        let e = sp_skip_ws(l, p.1);
                        if e >= l.len() || l[e] == '#' {
                            LineV::Entry(l.subrange(i, j), p.0)
                        } else {
                            LineV::Bad
                        }
                    },
                }
            }
        }
    }
}

/// Spec-level accumulator while reading a block: fields so far and the keys
/// already seen.
pub struct MetaAccV {
    pub fields: MetaFieldsV,
    pub seen: Seq<Seq<char>>,
}

/// Applies one `key = value` entry: a duplicate key or a wrongly typed value
/// for a known key is ill-formed; an unknown key is ignored.
pub open spec fn sp_apply(acc: MetaAccV, key: Seq<char>, v: ValueV) -> Option<MetaAccV> {
    if acc.seen.contains(key) {
        Option::None
    } else {
        let seen = acc.seen.push(key);
        if key == "title"@ {
            match v {
                ValueV::Str(s) => Option::Some(
                    MetaAccV {
                        fields: MetaFieldsV { title: Option::Some(s), ..acc.fields },
                        seen,
                    },
                ),
                _ => Option::None,
            }
        } else if key == "date"@ {
            match v {
                ValueV::Dt(d) => Option::Some(
                    MetaAccV { fields: MetaFieldsV { date: Option::Some(d), ..acc.fields }, seen },
                ),
                _ => Option::None,
            }
        } else if key == "tags"@ {
            match v {
                ValueV::Arr(a) => Option::Some(
                    MetaAccV { fields: MetaFieldsV { tags: Option::Some(a), ..acc.fields }, seen },
                ),
                _ => Option::None,
            }
        } else if key == "ghcommentid"@ {
            match v {
                ValueV::Int(n) => if 0 <= n <= 0xffffffff {
                    Option::Some(
                        MetaAccV {
                            fields: MetaFieldsV {
                                ghcommentid: Option::Some(n as u32),
                                ..acc.fields
                            },
                            seen,
                        },
                    )
                } else {
                    Option::None
                },
                _ => Option::None,
            }
        } else if key == "ghcommentauthors"@ {
            match v {
                ValueV::Arr(a) => Option::Some(
                    MetaAccV {
                        fields: MetaFieldsV { ghcommentauthors: Option::Some(a), ..acc.fields },
                        seen,
                    },
                ),
                _ => Option::None,
            }
        } else {
            Option::Some(MetaAccV { fields: acc.fields, seen })
        }
    }
}

/// One line of the block, as a window `s[i..j)` with a trailing carriage
/// return dropped.
pub open spec fn sp_line_at(s: Seq<char>, i: int, j: int) -> Seq<char> {
    let l = s.subrange(i, j);
    if l.len() > 0 && l.last() == '\r' {
        l.drop_last()
    } else {
        l
    }
}

/// Reads the block from position `i` on, line by line.
pub open spec fn sp_block_rec(s: Seq<char>, i: int, acc: MetaAccV) -> Option<MetaFieldsV>
    decreases s.len() - i,
        via sp_block_rec_dec
{
    if i < 0 {
        Option::None
    } else if i >= s.len() {
        Option::Some(acc.fields)
    } else {
        let j = sp_line_end(s, i);
        let next = if j < s.len() {
            j + 1
        } else {
            j
        };
        match sp_line(sp_line_at(s, i, j)) {
            LineV::Bad => Option::None,
            LineV::Blank => sp_block_rec(s, next, acc),
            LineV::Entry(k, v) => match sp_apply(acc, k, v) {
                Option::None => Option::None,
                Option::Some(acc2) => sp_block_rec(s, next, acc2),
            },
        }
    }
}

#[via_fn]
proof fn sp_block_rec_dec(s: Seq<char>, i: int, acc: MetaAccV) {
    if 0 <= i < s.len() {
        lemma_skip_bounds(s, i);
    }
}

pub open spec fn sp_empty_fields() -> MetaFieldsV {
    MetaFieldsV {
        title: Option::None,
        date: Option::None,
        tags: Option::None,
        ghcommentid: Option::None,
        ghcommentauthors: Option::None,
    }
}

/// What a whole metadata block means: the supplied fields, or nothing if the
/// block is ill-formed.
pub open spec fn sp_parse_meta(s: Seq<char>) -> Option<MetaFieldsV> {
    sp_block_rec(s, 0, MetaAccV { fields: sp_empty_fields(), seen: Seq::empty() })
}

} // verus!

verus! {

proof fn lemma_pow10_mono(a: int, b: int)
    requires
        a <= b,
    ensures
        1 <= pow10(a) <= pow10(b),
    decreases b - a,
{
    lemma_pow10_pos(a);
    if a < b {
        lemma_pow10_mono(a, b - 1);
        lemma_pow10_pos(b - 1);
    }
}

proof fn lemma_pow10_pos(e: int)
    ensures
        pow10(e) >= 1,
    decreases
            if e > 0 {
                e
            } else {
                0
            },
{
    if e > 0 {
        lemma_pow10_pos(e - 1);
    }
}

proof fn lemma_pow10_add(a: int, b: int)
    requires
        0 <= a,
        0 <= b,
    ensures
        pow10(a + b) == pow10(a) * pow10(b),
    decreases b,
{
    if b > 0 {
        lemma_pow10_add(a, b - 1);
        assert(pow10(a + b) == 10 * pow10(a + b - 1));
        assert(pow10(a) * pow10(b) == pow10(a) * (10 * pow10(b - 1)))
            by (nonlinear_arith)
            requires pow10(b) == 10 * pow10(b - 1);
        assert(pow10(a) * (10 * pow10(b - 1)) == 10 * (pow10(a) * pow10(b - 1)))
            by (nonlinear_arith);
    }
}

fn skip_ws_exec(v: &Vec<char>, i: usize) -> (r: usize)
    requires
        i <= v@.len(),
    ensures
        r as int == sp_skip_ws(v@, i as int),
        i <= r <= v@.len(),
{
    let mut k: usize = i;
    while k < v.len() && (v[k] == ' ' || v[k] == '\t')
        invariant
            i <= k <= v@.len(),
            sp_skip_ws(v@, i as int) == sp_skip_ws(v@, k as int),
        decreases v@.len() - k,
    {
        k = k + 1;
    }
    k
}

fn is_digit_exec(c: char) -> (r: bool)
    ensures
        r == is_digit(c),
{
    let n: u32 = c as u32;
    48 <= n && n <= 57
}

fn is_key_char_exec(c: char) -> (r: bool)
    ensures
        r == is_key_char(c),
{
    let n: u32 = c as u32;
    (97 <= n && n <= 122) || (65 <= n && n <= 90) || (48 <= n && n <= 57) || n == 45 || n == 95
}

fn skip_key_exec(v: &Vec<char>, i: usize) -> (r: usize)
    requires
        i <= v@.len(),
    ensures
        r as int == sp_skip_key(v@, i as int),
        i <= r <= v@.len(),
{
    let mut k: usize = i;
    while k < v.len() && is_key_char_exec(v[k])
        invariant
            i <= k <= v@.len(),
            sp_skip_key(v@, i as int) == sp_skip_key(v@, k as int),
        decreases v@.len() - k,
    {
        k = k + 1;
    }
    k
}

fn skip_digits_exec(v: &Vec<char>, i: usize) -> (r: usize)
    requires
        i <= v@.len(),
    ensures
        r as int == sp_skip_digits(v@, i as int),
        i <= r <= v@.len(),
        forall|m: int| i <= m < r ==> is_digit(v@[m]),
{
    let mut k: usize = i;
    while k < v.len() && is_digit_exec(v[k])
        invariant
            i <= k <= v@.len(),
            sp_skip_digits(v@, i as int) == sp_skip_digits(v@, k as int),
            forall|m: int| i <= m < k ==> is_digit(v@[m]),
        decreases v@.len() - k,
    {
        k = k + 1;
    }
    k
}

fn line_end_exec(v: &Vec<char>, i: usize) -> (r: usize)
    requires
        i <= v@.len(),
    ensures
        r as int == sp_line_end(v@, i as int),
        i <= r <= v@.len(),
{
    let mut k: usize = i;
    while k < v.len() && v[k] != '\n'
        invariant
            i <= k <= v@.len(),
            sp_line_end(v@, i as int) == sp_line_end(v@, k as int),
        decreases v@.len() - k,
    {
        k = k + 1;
    }
    k
}

fn unescape_exec(c: char) -> (r: Option<char>)
    ensures
        r == sp_unescape(c),
{
    if c == 'b' {
        Some('\u{0008}')
    } else if c == 't' {
        Some('\t')
    } else if c == 'n' {
        Some('\n')
    } else if c == 'f' {
        Some('\u{000C}')
    } else if c == 'r' {
        Some('\r')
    } else if c == '"' {
        Some('"')
    } else if c == '\\' {
        Some('\\')
    } else {
        None
    }
}

fn string_tail_exec(v: &Vec<char>, i: usize) -> (r: Option<(String, usize)>)
    requires
        i <= v@.len(),
    ensures
        ({
            let sp = sp_string_tail(v@, i as int);
            match r {
                Option::Some(p) => sp matches Option::Some(q) && p.0@ == q.0 && p.1 as int == q.1
                    && i < p.1 <= v@.len(),
                Option::None => sp is None,
            }
        }),
    decreases v@.len() - i,
{
    if i >= v.len() {
        None
    } else if v[i] == '"' {
        Some((String::new(), i + 1))
    } else if v[i] == '\\' {
        if i + 1 >= v.len() {
            None
        } else {
            match unescape_exec(v[i + 1]) {
                None => None,
                Some(c) => match string_tail_exec(v, i + 2) {
                    None => None,
                    Some((rest, j)) => {
                        let mut s = String::new();
                        push_char(&mut s, c);
                        let s2 = s.concat(rest.as_str());
                        proof {
                            assert(s2@ =~= seq![c] + rest@);
                        }
                        Some((s2, j))
                    },
                },
            }
        }
    } else {
        let c = v[i];
        match string_tail_exec(v, i + 1) {
            None => None,
            Some((rest, j)) => {
                let mut s = String::new();
                push_char(&mut s, c);
                let s2 = s.concat(rest.as_str());
                proof {
                    assert(s2@ =~= seq![c] + rest@);
                }
                Some((s2, j))
            },
        }
    }
}

fn array_tail_exec(v: &Vec<char>, i: usize) -> (r: Option<(Vec<String>, usize)>)
    requires
        i <= v@.len(),
    ensures
        ({
            let sp = sp_array_tail(v@, i as int);
            match r {
                Option::Some(p) => sp matches Option::Some(q) && strs_view(p.0@) == q.0 && p.1
                    as int == q.1 && i < p.1 <= v@.len(),
                Option::None => sp is None,
            }
        }),
    decreases v@.len() - i,
{
    let j = skip_ws_exec(v, i);
    if j >= v.len() {
        None
    } else if v[j] == ']' {
        let out: Vec<String> = Vec::new();
        proof {
            assert(strs_view(out@) =~= Seq::<Seq<char>>::empty());
        }
        Some((out, j + 1))
    } else if v[j] == '"' {
        match string_tail_exec(v, j + 1) {
            None => None,
            Some((e, k0)) => {
                let k = skip_ws_exec(v, k0);
                if k >= v.len() {
                    None
                } else if v[k] == ',' {
                    match array_tail_exec(v, k + 1) {
                        None => None,
                        Some((mut rest, m)) => {
                            let ghost old_rest = rest@;
                            let mut out: Vec<String> = Vec::new();
                            out.push(e);
                            out.append(&mut rest);
                            proof {
                                let q = sp_array_tail(v@, i as int)->0;
                                assert(strs_view(out@) =~= q.0);
                            }
                            Some((out, m))
                        },
                    }
                } else if v[k] == ']' {
                    let mut out: Vec<String> = Vec::new();
                    out.push(e);
                    proof {
                        let q = sp_array_tail(v@, i as int)->0;
                        assert(strs_view(out@) =~= q.0);
                    }
                    Some((out, k + 1))
                } else {
                    None
                }
            },
        }
    } else {
        None
    }
}

fn digits_val_exec(v: &Vec<char>, i: usize, j: usize) -> (r: u64)
    requires
        i <= j <= v@.len(),
        j - i <= 18,
        forall|m: int| i <= m < j ==> is_digit(v@[m]),
    ensures
        r as int == sp_digits_val(v@, i as int, j as int),
        r < 1000000000000000000,
{
    proof {
        lemma_pow10_concrete();
    }
    let mut k: usize = i;
    let mut val: u64 = 0;
    while k < j
        invariant
            i <= k <= j <= v@.len(),
            j - i <= 18,
            forall|m: int| i <= m < j ==> is_digit(v@[m]),
            val as int == sp_digits_val(v@, i as int, k as int),
            val < 1000000000000000000,
        decreases j - k,
    {
        proof {
            lemma_digits_val_bounds(v@, i as int, k as int);
            lemma_pow10_mono(k - i, 17);
            lemma_pow10_concrete();
            assert(pow10(17) == 100000000000000000);
        }
        val = val * 10 + ((v[k] as u32) as u64 - 48);
        k = k + 1;
    }
    proof {
        lemma_digits_val_bounds(v@, i as int, j as int);
        lemma_pow10_mono(j - i, 18);
    }
    val
}

fn d2_exec(v: &Vec<char>, i: usize) -> (r: Option<u8>)
    ensures
        ({
            let sp = sp_d2(v@, i as int);
            match r {
                Option::Some(n) => sp matches Option::Some(m) && n as int == m && n < 100,
                Option::None => sp is None,
            }
        }),
{
    if i < v.len() && i + 1 < v.len() {
        let c0: u32 = v[i] as u32;
        let c1: u32 = v[i + 1] as u32;
        if 48 <= c0 && c0 <= 57 && 48 <= c1 && c1 <= 57 {
            let n: u32 = (c0 - 48) * 10 + (c1 - 48);
            proof {
                assert(sp_digits_val(v@, i as int, i as int) == 0);
                assert(sp_digits_val(v@, i as int, i + 1) == (v@[i as int] as u32 - 48));
                assert(sp_digits_val(v@, i as int, i + 2) == sp_digits_val(v@, i as int, i + 1) * 10
                    + (v@[i + 1] as u32 - 48));
            }
            Some(n as u8)
        } else {
            None
        }
    } else {
        None
    }
}

fn pow10_exec(e: usize) -> (r: u64)
    requires
        e <= 9,
    ensures
        r as int == pow10(e as int),
{
    proof {
        lemma_pow10_concrete();
    }
    if e == 0 {
        1
    } else if e == 1 {
        10
    } else if e == 2 {
        100
    } else if e == 3 {
        1000
    } else if e == 4 {
        10000
    } else if e == 5 {
        100000
    } else if e == 6 {
        1000000
    } else if e == 7 {
        10000000
    } else if e == 8 {
        100000000
    } else {
        proof {
            assert(pow10(9) == 1000000000);
        }
        1000000000
    }
}

fn time_tail_exec(v: &Vec<char>, i: usize) -> (r: Option<(Time, usize)>)
    requires
        i <= v@.len(),
    ensures
        ({
            let sp = sp_time_tail(v@, i as int);
            match r {
                Option::Some(p) => sp matches Option::Some(q) && p.0 == q.0 && p.1 as int == q.1
                    && i < p.1 <= v@.len(),
                Option::None => sp is None,
            }
        }),
{
    let h = match d2_exec(v, i) {
        Some(h) => h,
        None => {
            return None;
        },
    };
    if v.len() - i < 8 {
        return None;
    }
    let m = match d2_exec(v, i + 3) {
        Some(m) => m,
        None => {
            return None;
        },
    };
    let sec = match d2_exec(v, i + 6) {
        Some(s) => s,
        None => {
            return None;
        },
    };
    if !(v[i + 2] == ':' && v[i + 5] == ':' && h <= 23 && m <= 59 && sec <= 59) {
        return None;
    }
    let j = i + 8;
    if j < v.len() && v[j] == '.' {
        let k = skip_digits_exec(v, j + 1);
        if k == j + 1 {
            None
        } else {
            let nd: usize = if k - (j + 1) > 9 {
                9
            } else {
                k - (j + 1)
            };
            let digits = digits_val_exec(v, j + 1, j + 1 + nd);
            let scale = pow10_exec(9 - nd);
            proof {
                lemma_digits_val_bounds(v@, j + 1 as int, j + 1 + nd as int);
                lemma_pow10_add(nd as int, 9 - nd as int);
                lemma_pow10_concrete();
                lemma_pow10_mono(0, 9 - nd as int);
                assert(digits * scale < pow10(nd as int) * pow10(9 - nd as int)) by (nonlinear_arith)
                    requires
                        digits < pow10(nd as int),
                        0 <= digits,
                        scale == pow10(9 - nd as int),
                        scale >= 1,
                ;
            }
            let nano: u64 = digits * scale;
            Some((Time { hour: h, minute: m, second: sec, nanosecond: nano as u32 }, k))
        }
    } else {
        Some((Time { hour: h, minute: m, second: sec, nanosecond: 0 }, j))
    }
}

fn offset_tail_exec(v: &Vec<char>, i: usize) -> (r: Option<(UtcOffset, usize)>)
    requires
        i <= v@.len(),
    ensures
        ({
            let sp = sp_offset_tail(v@, i as int);
            match r {
                Option::Some(p) => sp matches Option::Some(q) && p.0 == q.0 && p.1 as int == q.1
                    && i < p.1 <= v@.len(),
                Option::None => sp is None,
            }
        }),
{
    if i < v.len() && (v[i] == 'Z' || v[i] == 'z') {
        return Some((UtcOffset::Zulu, i + 1));
    }
    if !(i < v.len() && (v[i] == '+' || v[i] == '-')) {
        return None;
    }
    if v.len() - i < 6 {
        return None;
    }
    let h = match d2_exec(v, i + 1) {
        Some(h) => h,
        None => {
            return None;
        },
    };
    let m = match d2_exec(v, i + 4) {
        Some(m) => m,
        None => {
            return None;
        },
    };
    if !(v[i + 3] == ':' && h <= 23 && m <= 59) {
        return None;
    }
    let mins: i16 = h as i16 * 60 + m as i16;
    if v[i] == '-' {
        Some((UtcOffset::Minutes(-mins), i + 6))
    } else {
        Some((UtcOffset::Minutes(mins), i + 6))
    }
}

fn date_tail_exec(v: &Vec<char>, i: usize) -> (r: Option<(Datetime, usize)>)
    requires
        i <= v@.len(),
    ensures
        ({
            let sp = sp_date_tail(v@, i as int);
            match r {
                Option::Some(p) => sp matches Option::Some(q) && p.0 == q.0 && p.1 as int == q.1
                    && i < p.1 <= v@.len(),
                Option::None => sp is None,
            }
        }),
{
    if v.len() - i < 10 {
        return None;
    }
    let y0: u32 = v[i] as u32;
    let y1: u32 = v[i + 1] as u32;
    let y2: u32 = v[i + 2] as u32;
    let y3: u32 = v[i + 3] as u32;
    let digits4 = 48 <= y0 && y0 <= 57 && 48 <= y1 && y1 <= 57 && 48 <= y2 && y2 <= 57 && 48 <= y3
        && y3 <= 57;
    if !digits4 {
        return None;
    }
    let mo = match d2_exec(v, i + 5) {
        Some(m) => m,
        None => {
            return None;
        },
    };
    let da = match d2_exec(v, i + 8) {
        Some(d) => d,
        None => {
            return None;
        },
    };
    if !(v[i + 4] == '-' && v[i + 7] == '-') {
        return None;
    }
    let year = digits_val_exec(v, i, i + 4);
    let d = Date { year: year as u16, month: mo, day: da };
    proof {
        lemma_digits_val_bounds(v@, i as int, i + 4 as int);
        lemma_pow10_concrete();
    }
    if !valid_date_exec(&d) {
        return None;
    }
    let j = i + 10;
    if j < v.len() && (v[j] == 'T' || v[j] == 't') {
        match time_tail_exec(v, j + 1) {
            None => None,
            Some((t, k)) => match offset_tail_exec(v, k) {
                Some((o, e)) => Some(
                    (
                        Datetime {
                            date: Some(d),
                            time: Some(t),
                            offset: Some(o),
                        },
                        e,
                    ),
                ),
                None => Some((Datetime { date: Some(d), time: Some(t), offset: None }, k)),
            },
        }
    } else if j < v.len() && v[j] == ' ' {
        match time_tail_exec(v, j + 1) {
            Some((t, k)) => match offset_tail_exec(v, k) {
                Some((o, e)) => Some(
                    (
                        Datetime {
                            date: Some(d),
                            time: Some(t),
                            offset: Some(o),
                        },
                        e,
                    ),
                ),
                None => Some((Datetime { date: Some(d), time: Some(t), offset: None }, k)),
            },
            None => Some((Datetime { date: Some(d), time: None, offset: None }, j)),
        }
    } else {
        Some((Datetime { date: Some(d), time: None, offset: None }, j))
    }
}

fn uint_tail_exec(v: &Vec<char>, i: usize) -> (r: Option<(u64, usize)>)
    requires
        i <= v@.len(),
    ensures
        ({
            let sp = sp_uint_tail(v@, i as int);
            match r {
                Option::Some(p) => sp matches Option::Some(q) && p.0 as int == q.0 && p.1 as int
                    == q.1 && i < p.1 <= v@.len() && p.0 < 1000000000000000000,
                Option::None => sp is None,
            }
        }),
{
    let j = skip_digits_exec(v, i);
    if j == i || j - i > 18 {
        None
    } else if j - i > 1 && v[i] == '0' {
        None
    } else {
        let val = digits_val_exec(v, i, j);
        Some((val, j))
    }
}

fn value_exec(v: &Vec<char>, i: usize) -> (r: Option<(Value, usize)>)
    requires
        i <= v@.len(),
    ensures
        ({
            let sp = sp_value(v@, i as int);
            match r {
                Option::Some(p) => sp matches Option::Some(q) && p.0@ == q.0 && p.1 as int == q.1
                    && i < p.1 <= v@.len(),
                Option::None => sp is None,
            }
        }),
{
    if i >= v.len() {
        None
    } else if v[i] == '"' {
        match string_tail_exec(v, i + 1) {
            Some((s, j)) => Some((Value::Str(s), j)),
            None => None,
        }
    } else if v[i] == '[' {
        match array_tail_exec(v, i + 1) {
            Some((a, j)) => Some((Value::Arr(a), j)),
            None => None,
        }
    } else if v[i] == '+' || v[i] == '-' {
        match uint_tail_exec(v, i + 1) {
            Some((n, j)) => {
                if v[i] == '-' {
                    Some((Value::Int(-(n as i64)), j))
                } else {
                    Some((Value::Int(n as i64), j))
                }
            },
            None => None,
        }
    } else {
        let c: u32 = v[i] as u32;
        if 48 <= c && c <= 57 {
            let j = skip_digits_exec(v, i);
            if j - i == 4 && j < v.len() && v[j] == '-' {
                match date_tail_exec(v, i) {
                    Some((d, e)) => Some((Value::Dt(d), e)),
                    None => None,
                }
            } else if j - i == 2 && j < v.len() && v[j] == ':' {
                match time_tail_exec(v, i) {
                    Some((t, e)) => Some(
                        (Value::Dt(Datetime { date: None, time: Some(t), offset: None }), e),
                    ),
                    None => None,
                }
            } else {
                match uint_tail_exec(v, i) {
                    Some((n, e)) => Some((Value::Int(n as i64), e)),
                    None => None,
                }
            }
        } else {
            None
        }
    }
}

/// The reading of one line.
pub enum Line {
    Blank,
    Entry(String, Value),
    Bad,
}

impl View for Line {
    type V = LineV;

    open spec fn view(&self) -> LineV {
        match self {
            Line::Blank => LineV::Blank,
            Line::Entry(k, v) => LineV::Entry(k@, v@),
            Line::Bad => LineV::Bad,
        }
    }
}

fn parse_line_exec(l: &Vec<char>) -> (r: Line)
    ensures
        r@ == sp_line(l@),
{
    let i = skip_ws_exec(l, 0);
    if i >= l.len() || l[i] == '#' {
        return Line::Blank;
    }
    let j = skip_key_exec(l, i);
    if j == i {
        return Line::Bad;
    }
    let k = skip_ws_exec(l, j);
    if k >= l.len() || l[k] != '=' {
        return Line::Bad;
    }
    let v = skip_ws_exec(l, k + 1);
    match value_exec(l, v) {
        None => Line::Bad,
        Some((val, p)) => {
            let e = skip_ws_exec(l, p);
            if e >= l.len() || l[e] == '#' {
                let key = crate::strutil::string_from_chars(l, i, j);
                Line::Entry(key, val)
            } else {
                Line::Bad
            }
        },
    }
}

} // verus!

verus! {

/// The accumulator while reading a block.
pub struct MetaAcc {
    pub fields: MetaFields,
    pub seen: Vec<String>,
}

impl View for MetaAcc {
    type V = MetaAccV;

    open spec fn view(&self) -> MetaAccV {
        MetaAccV { fields: self.fields@, seen: strs_view(self.seen@) }
    }
}

fn key_is(key: &String, lit: &str) -> (r: bool)
    ensures
        r == (key@ == lit@),
{
    let owned = lit.to_owned();
    *key == owned
}

fn seen_contains(seen: &Vec<String>, key: &String) -> (r: bool)
    ensures
        r == strs_view(seen@).contains(key@),
{
    let mut i: usize = 0;
    while i < seen.len()
        invariant
            i <= seen@.len(),
            forall|m: int| 0 <= m < i ==> strs_view(seen@)[m] != key@,
        decreases seen@.len() - i,
    {
        if seen[i] == *key {
            proof {
                assert(strs_view(seen@)[i as int] == key@);
            }
            return true;
        }
        i = i + 1;
    }
    false
}

fn apply_exec(acc: MetaAcc, key: String, v: Value) -> (r: Option<MetaAcc>)
    ensures
        ({
            let sp = sp_apply(acc@, key@, v@);
            match r {
                Option::Some(a2) => sp matches Option::Some(b2) && a2@ == b2,
                Option::None => sp is None,
            }
        }),
{
    if seen_contains(&acc.seen, &key) {
        return None;
    }
    let MetaAcc { fields, mut seen } = acc;
    let ghost old_seen = seen@;
    let is_title = key_is(&key, "title");
    let is_date = key_is(&key, "date");
    let is_tags = key_is(&key, "tags");
    let is_id = key_is(&key, "ghcommentid");
    let is_authors = key_is(&key, "ghcommentauthors");
    seen.push(key);
    proof {
        assert(strs_view(seen@) =~= strs_view(old_seen).push(seen@.last()@));
    }
    if is_title {
        match v {
            Value::Str(s) => Some(
                MetaAcc { fields: MetaFields { title: Some(s), ..fields }, seen },
            ),
            _ => None,
        }
    } else if is_date {
        match v {
            Value::Dt(d) => Some(MetaAcc { fields: MetaFields { date: Some(d), ..fields }, seen }),
            _ => None,
        }
    } else if is_tags {
        match v {
            Value::Arr(a) => Some(MetaAcc { fields: MetaFields { tags: Some(a), ..fields }, seen }),
            _ => None,
        }
    } else if is_id {
        match v {
            Value::Int(n) => {
                if 0 <= n && n <= 0xffffffff {
                    Some(
                        MetaAcc {
                            fields: MetaFields { ghcommentid: Some(n as u32), ..fields },
                            seen,
                        },
                    )
                } else {
                    None
                }
            },
            _ => None,
        }
    } else if is_authors {
        match v {
            Value::Arr(a) => Some(
                MetaAcc { fields: MetaFields { ghcommentauthors: Some(a), ..fields }, seen },
            ),
            _ => None,
        }
    } else {
        Some(MetaAcc { fields, seen })
    }
}

fn copy_chars(v: &Vec<char>, from: usize, to: usize) -> (l: Vec<char>)
    requires
        from <= to <= v@.len(),
    ensures
        l@ == v@.subrange(from as int, to as int),
{
    let mut l: Vec<char> = Vec::new();
    let mut i: usize = from;
    while i < to
        invariant
            from <= i <= to <= v@.len(),
            l@ == v@.subrange(from as int, i as int),
        decreases to - i,
    {
        l.push(v[i]);
        proof {
            assert(v@.subrange(from as int, i + 1) == v@.subrange(from as int, i as int).push(
                v@[i as int],
            ));
        }
        i = i + 1;
    }
    l
}

fn block_rec_exec(v: &Vec<char>, i: usize, acc: MetaAcc) -> (r: Option<MetaFields>)
    requires
        i <= v@.len(),
    ensures
        ({
            let sp = sp_block_rec(v@, i as int, acc@);
            match r {
                Option::Some(f) => sp matches Option::Some(g) && f@ == g,
                Option::None => sp is None,
            }
        }),
    decreases v@.len() - i,
{
    if i >= v.len() {
        return Some(acc.fields);
    }
    let j = line_end_exec(v, i);
    let mut jj: usize = j;
    if j > i && v[j - 1] == '\r' {
        jj = j - 1;
    }
    let line = copy_chars(v, i, jj);
    proof {
        if jj < j {
            assert(v@.subrange(i as int, j as int).last() == '\r');
            assert(line@ =~= v@.subrange(i as int, j as int).drop_last());
        } else {
            let l = v@.subrange(i as int, j as int);
            if l.len() > 0 {
                assert(l.last() == v@[j - 1]);
            }
        }
        assert(line@ == sp_line_at(v@, i as int, j as int));
    }
    let next: usize = if j < v.len() {
        j + 1
    } else {
        j
    };
    match parse_line_exec(&line) {
        Line::Bad => None,
        Line::Blank => block_rec_exec(v, next, acc),
        Line::Entry(k, val) => match apply_exec(acc, k, val) {
            None => None,
            Some(acc2) => block_rec_exec(v, next, acc2),
        },
    }
}

/// Parses the accumulated text of a metadata block into its fields; `None`
/// exactly when the block is ill-formed.
pub fn parse_meta_block(text: &str) -> (r: Option<MetaFields>)
    ensures
        ({
            let sp = sp_parse_meta(text@);
            match r {
                Option::Some(f) => sp matches Option::Some(g) && f@ == g,
                Option::None => sp is None,
            }
        }),
{
    let v = str_chars(text);
    let fields = MetaFields {
        title: None,
        date: None,
        tags: None,
        ghcommentid: None,
        ghcommentauthors: None,
    };
    let acc = MetaAcc { fields, seen: Vec::new() };
    proof {
        assert(acc@.seen =~= Seq::<Seq<char>>::empty());
        assert(acc@.fields == sp_empty_fields());
    }
    block_rec_exec(&v, 0, acc)
}

} // verus!
