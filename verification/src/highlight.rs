//! Syntax highlighting of fenced code blocks, and the line-separator markers
//! the templating layer uses for line numbers: a `<a-lf></a-lf>` marker
//! stands before the first line and after every line feed.

use vstd::prelude::*;
use vstd::string::*;
use crate::strutil::push_char;

verus! {

/// Why highlighting failed.
#[derive(Clone, Copy, PartialEq, Eq, Debug)]
pub enum HighlightFailure {
    /// No grammar is registered for the language tag.
    Unsupported,
    /// The highlighter itself failed.
    Internal,
}

/// What the highlighter returns for a language tag and source text; the
/// outcome depends on the two arguments alone.
pub uninterp spec fn highlight_outcome(lang: Seq<char>, source: Seq<char>) -> Result<
    Seq<char>,
    HighlightFailure,
>;

/// Relies on `arborium::Highlighter::highlight`: highlighted HTML for a
/// (language, source) pair, `Error::UnsupportedLanguage` when no grammar
/// matches the tag, another error when highlighting itself fails.
#[verifier::external_body]
pub(crate) fn highlight(lang: &str, source: &str) -> (r: Result<String, HighlightFailure>)
    ensures
        ({
            let o = highlight_outcome(lang@, source@);
            match r {
                Result::Ok(h) => o matches Result::Ok(v) && h@ == v,
                Result::Err(e) => o matches Result::Err(f) && e == f,
            }
        }),
{
    match arborium::Highlighter::new().highlight(lang, source) {
        Ok(h) => Ok(h),
        Err(arborium::Error::UnsupportedLanguage { .. }) => Err(HighlightFailure::Unsupported),
        Err(_) => Err(HighlightFailure::Internal),
    }
}

/// The characters with the Unicode `White_Space` property.
pub open spec fn is_unicode_ws(c: char) -> bool {
    (9 <= c as u32 <= 13) || c as u32 == 32 || c as u32 == 0x85 || c as u32 == 0xa0 || c as u32
        == 0x1680 || (0x2000 <= c as u32 <= 0x200a) || c as u32 == 0x2028 || c as u32 == 0x2029
        || c as u32 == 0x202f || c as u32 == 0x205f || c as u32 == 0x3000
}

/// `s` with trailing whitespace removed.
pub open spec fn trim_end_ws(s: Seq<char>) -> Seq<char>
    decreases s.len(),
{
    if s.len() > 0 && is_unicode_ws(s.last()) {
        trim_end_ws(s.drop_last())
    } else {
        s
    }
}

fn is_unicode_ws_exec(c: char) -> (r: bool)
    ensures
        r == is_unicode_ws(c),
{
    let n: u32 = c as u32;
    (9 <= n && n <= 13) || n == 32 || n == 0x85 || n == 0xa0 || n == 0x1680 || (0x2000 <= n && n
        <= 0x200a) || n == 0x2028 || n == 0x2029 || n == 0x202f || n == 0x205f || n == 0x3000
}

/// Removes trailing whitespace, as the highlighter is given the code.
pub fn trim_end_exec(v: &Vec<char>) -> (r: String)
    ensures
        r@ == trim_end_ws(v@),
{
    let mut n: usize = v.len();
    proof {
        assert(v@.take(n as int) =~= v@);
    }
    while n > 0 && is_unicode_ws_exec(v[n - 1])
        invariant
            n <= v@.len(),
            trim_end_ws(v@) == trim_end_ws(v@.take(n as int)),
        decreases n,
    {
        proof {
            let cur = v@.take(n as int);
            assert(cur.last() == v@[n - 1]);
            assert(cur.drop_last() =~= v@.take(n - 1));
        }
        n = n - 1;
    }
    proof {
        let cur = v@.take(n as int);
        if cur.len() > 0 {
            assert(cur.last() == v@[n - 1]);
        }
        assert(trim_end_ws(cur) == cur);
        assert(v@.take(n as int) =~= v@.subrange(0, n as int));
    }
    crate::strutil::string_from_chars(v, 0, n)
}

/// The line-separator marker.
pub open spec fn lf_marker() -> Seq<char> {
    "<a-lf></a-lf>"@
}

/// `h` with a line-separator marker inserted after every line feed.
pub open spec fn mark_lines(h: Seq<char>) -> Seq<char>
    decreases h.len(),
{
    if h.len() == 0 {
        Seq::empty()
    } else {
        let rest = mark_lines(h.drop_first());
        if h[0] == '\n' {
            seq!['\n'] + lf_marker() + rest
        } else {
            seq![h[0]] + rest
        }
    }
}

/// The highlighted markup as emitted: a marker before the first line and
/// after every line feed.
pub open spec fn line_marked(h: Seq<char>) -> Seq<char> {
    lf_marker() + mark_lines(h)
}

proof fn lemma_mark_lines_append(a: Seq<char>, b: Seq<char>)
    ensures
        mark_lines(a + b) == mark_lines(a) + mark_lines(b),
    decreases a.len(),
{
    if a.len() == 0 {
        assert(a + b =~= b);
        assert(mark_lines(a) =~= Seq::empty());
    } else {
        lemma_mark_lines_append(a.drop_first(), b);
        assert((a + b).drop_first() =~= a.drop_first() + b);
        assert((a + b)[0] == a[0]);
        if a[0] == '\n' {
            assert(seq!['\n'] + lf_marker() + (mark_lines(a.drop_first()) + mark_lines(b)) =~= (
            seq!['\n'] + lf_marker() + mark_lines(a.drop_first())) + mark_lines(b));
        } else {
            assert(seq![a[0]] + (mark_lines(a.drop_first()) + mark_lines(b)) =~= (seq![a[0]]
                + mark_lines(a.drop_first())) + mark_lines(b));
        }
    }
}

/// Builds the emitted markup for highlighted HTML `h`.
pub fn mark_lines_exec(h: &str) -> (r: String)
    ensures
        r@ == line_marked(h@),
{
    let chars = crate::strutil::str_chars(h);
    let mut out = String::from_str("<a-lf></a-lf>");
    proof {
        assert(mark_lines(chars@.take(0)) =~= Seq::empty());
        assert(out@ =~= lf_marker() + mark_lines(chars@.take(0)));
    }
    let mut i: usize = 0;
    while i < chars.len()
        invariant
            i <= chars@.len(),
            out@ == lf_marker() + mark_lines(chars@.take(i as int)),
        decreases chars@.len() - i,
    {
        let c = chars[i];
        proof {
            assert(chars@.take(i + 1) =~= chars@.take(i as int) + seq![chars@[i as int]]);
            lemma_mark_lines_append(chars@.take(i as int), seq![chars@[i as int]]);
            let single = seq![chars@[i as int]];
            assert(single.drop_first() =~= Seq::<char>::empty());
            assert(mark_lines(single.drop_first()) =~= Seq::<char>::empty());
            if chars@[i as int] == '\n' {
                assert(mark_lines(single) =~= seq!['\n'] + lf_marker());
            } else {
                assert(mark_lines(single) =~= seq![chars@[i as int]]);
            }
        }
        if c == '\n' {
            push_char(&mut out, '\n');
            out.append("<a-lf></a-lf>");
        } else {
            push_char(&mut out, c);
        }
        i = i + 1;
    }
    proof {
        assert(chars@.take(chars@.len() as int) =~= chars@);
    }
    out
}

} // verus!
