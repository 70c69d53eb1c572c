//! The stream transformers: a code/image/metadata stage with a replayable
//! lookahead buffer over the upstream token stream, and a math rendering pass
//! over its output.
//!
//! The universal pattern is lookahead-then-decide: a stage pulls ahead across
//! one whole nested block, buffering the pulled tokens, then either replaces
//! the block with synthesized output or replays the buffered tokens verbatim.

use vstd::prelude::*;
use vstd::string::*;
use std::collections::VecDeque;
use crate::highlight::{
    highlight, highlight_outcome, line_marked, mark_lines_exec, trim_end_exec, trim_end_ws,
    HighlightFailure,
};
use crate::mathml::{mathml_outcome, render_mathml};
use crate::meta::{parse_meta_block, sp_parse_meta};
use crate::post::{LogLine, PostBuilder};
use crate::raster::transcode_webp;
use crate::store::{store_after, store_path, AssetStore};
use crate::strutil::push_char;
use crate::tokens::{views, Token, TokenV};
use crate::urlcheck::{classify_url, url_kind_of, UrlKind};

verus! {

/// Which end marker an accumulation is waiting for.
#[derive(Clone, Copy, PartialEq, Eq, Debug)]
pub enum AccumEnd {
    Code,
    Image,
    Meta,
}

/// Whether `t` is the end marker an accumulation waits for.
pub open spec fn is_end_token(t: Token, e: AccumEnd) -> bool {
    match e {
        AccumEnd::Code => t is CodeEnd,
        AccumEnd::Image => t is ImageEnd,
        AccumEnd::Meta => t is MetaEnd,
    }
}

/// Whether `t` is legal inside an accumulated block: plain text or inline
/// math.
pub open spec fn is_content_token(t: Token) -> bool {
    t is Text || t is InlineMath
}

/// The position where an accumulation starting at `i` stops: the first
/// position at or after `i` holding the end marker, a token that is not
/// plain content, or the end of the input.
pub open spec fn scan_stop(input: Seq<Token>, i: int, e: AccumEnd) -> int
    decreases input.len() - i,
{
    if 0 <= i < input.len() && is_content_token(input[i]) && !is_end_token(input[i], e) {
        scan_stop(input, i + 1, e)
    } else {
        i
    }
}

/// Whether an accumulation starting at `i` finds its end marker.
pub open spec fn scan_found(input: Seq<Token>, i: int, e: AccumEnd) -> bool {
    let j = scan_stop(input, i, e);
    j < input.len() && is_end_token(input[j], e)
}

/// The position just past what an accumulation starting at `i` consumes:
/// the end marker or the offending token is consumed too; a stream that runs
/// out is consumed whole.
pub open spec fn consumed_to(input: Seq<Token>, i: int, e: AccumEnd) -> int {
    let j = scan_stop(input, i, e);
    if j < input.len() {
        j + 1
    } else {
        j
    }
}

/// The text an accumulation gathers from `input[i..j)`: text runs verbatim,
/// inline math re-fenced in dollar signs.
pub open spec fn accum_text(input: Seq<Token>, i: int, j: int) -> Seq<char>
    decreases j - i,
{
    if j <= i {
        Seq::empty()
    } else {
        accum_text(input, i, j - 1) + (match input[j - 1] {
            Token::Text(t) => t@,
            Token::InlineMath(m) => seq!['$'] + m@ + seq!['$'],
            _ => Seq::empty(),
        })
    }
}

proof fn lemma_scan_stop_bounds(input: Seq<Token>, i: int, e: AccumEnd)
    requires
        0 <= i <= input.len(),
    ensures
        i <= scan_stop(input, i, e) <= input.len(),
        forall|m: int|
            i <= m < scan_stop(input, i, e) ==> is_content_token(input[m]) && !is_end_token(
                input[m],
                e,
            ),
    decreases input.len() - i,
{
    if i < input.len() {
        lemma_scan_stop_bounds(input, i + 1, e);
    }
}

/// The code/image/metadata stage: wraps the upstream token stream, buffers
/// lookahead tokens for replay, and writes into the enclosing document
/// builder and the build-wide asset store.
pub struct CodeImageStage {
    /// The upstream token stream.
    pub input: Vec<Token>,
    /// The position of the next upstream token.
    pub pos: usize,
    /// Already-pulled, not-yet-emitted tokens, replayed before new pulls.
    pub buffer: VecDeque<Token>,
    /// The enclosing document being built.
    pub builder: PostBuilder,
    /// The build-wide asset store.
    pub store: AssetStore,
}

impl CodeImageStage {
    pub open spec fn wf(&self) -> bool {
        self.pos <= self.input@.len()
    }

    /// The builder's document identity is never touched by the stage.
    pub open spec fn same_doc(pre: Self, post: Self) -> bool {
        &&& post.input == pre.input
        &&& post.builder.file_name == pre.builder.file_name
        &&& post.builder.is_dir == pre.builder.is_dir
        &&& post.builder.files == pre.builder.files
        &&& post.builder.fallback_date == pre.builder.fallback_date
    }

    /// Accumulate-until: pulls upstream tokens into the buffer, gathering
    /// their text, until the end marker is seen (inclusive); a token that is
    /// neither content nor the end marker aborts with an error logged, and a
    /// stream that runs out aborts silently.  The buffer keeps everything
    /// pulled either way.
    pub fn accumulate_plain_text(&mut self, end: AccumEnd, desc: &str) -> (r: Option<String>)
        requires
            old(self).wf(),
        ensures
            final(self).wf(),
            Self::same_doc(*old(self), *final(self)),
            final(self).builder.meta == old(self).builder.meta,
            final(self).store == old(self).store,
            final(self).pos as int == consumed_to(old(self).input@, old(self).pos as int, end),
            views(final(self).buffer@) == views(old(self).buffer@) + views(
                old(self).input@.subrange(old(self).pos as int, final(self).pos as int),
            ),
            ({
                let found = scan_found(old(self).input@, old(self).pos as int, end);
                let j = scan_stop(old(self).input@, old(self).pos as int, end);
                match r {
                    Option::Some(text) => found && text@ == accum_text(
                        old(self).input@,
                        old(self).pos as int,
                        j,
                    ),
                    Option::None => !found,
                }
            }),
            ({
                let j = scan_stop(old(self).input@, old(self).pos as int, end);
                if !scan_found(old(self).input@, old(self).pos as int, end) && j
                    < old(self).input@.len() {
                    &&& crate::post::logs_plus_one(
                        old(self).builder.logs@,
                        final(self).builder.logs@,
                    )
                    &&& final(self).builder.logs@.last() matches LogLine::AccumulateError(d, k)
                        && d@ == desc@ && k@ == crate::tokens::token_label(old(self).input@[j]@)
                } else {
                    final(self).builder.logs == old(self).builder.logs
                }
            }),
    {
        proof {
            lemma_scan_stop_bounds(self.input@, self.pos as int, end);
        }
        let ghost start = self.pos as int;
        let ghost input0 = self.input@;
        let mut text = String::new();
        loop
            invariant
                self.wf(),
                start == old(self).pos as int,
                input0 == old(self).input@,
                start <= self.pos as int <= input0.len(),
                self.input@ == input0,
                Self::same_doc(*old(self), *self),
                self.builder.meta == old(self).builder.meta,
                self.builder.logs == old(self).builder.logs,
                self.store == old(self).store,
                scan_stop(input0, start, end) == scan_stop(input0, self.pos as int, end),
                views(self.buffer@) == views(old(self).buffer@) + views(
                    input0.subrange(start, self.pos as int),
                ),
                text@ == accum_text(input0, start, self.pos as int),
            decreases input0.len() - self.pos,
        {
            if self.pos >= self.input.len() {
                proof {
                    assert(scan_stop(input0, self.pos as int, end) == self.pos as int);
                }
                return None;
            }
            let i = self.pos;
            let tok = &self.input[i];
            let ghost pre_buffer = self.buffer@;
            let cloned = tok.clone();
            self.buffer.push_back(cloned);
            self.pos = i + 1;
            proof {
                assert(input0.subrange(start, i + 1) =~= input0.subrange(start, i as int).push(
                    input0[i as int],
                ));
                assert(views(input0.subrange(start, i as int).push(input0[i as int])) =~= views(
                    input0.subrange(start, i as int),
                ).push(input0[i as int]@));
                assert(views(pre_buffer.push(self.buffer@.last())) =~= views(pre_buffer).push(
                    self.buffer@.last()@,
                ));
            }
            let is_end = match (&self.input[i], end) {
                (Token::CodeEnd, AccumEnd::Code) => true,
                (Token::ImageEnd, AccumEnd::Image) => true,
                (Token::MetaEnd, AccumEnd::Meta) => true,
                _ => false,
            };
            if is_end {
                proof {
                    assert(scan_stop(input0, i as int, end) == i as int);
                    assert(accum_text(input0, start, i + 1) =~= accum_text(input0, start, i as int)
                        + Seq::<char>::empty());
                }
                return Some(text);
            }
            match &self.input[i] {
                Token::Text(t) => {
                    text.append(t.as_str());
                    proof {
                        assert(accum_text(input0, start, i + 1) == accum_text(
                            input0,
                            start,
                            i as int,
                        ) + input0[i as int]->Text_0@);
                    }
                },
                Token::InlineMath(m) => {
                    push_char(&mut text, '$');
                    text.append(m.as_str());
                    push_char(&mut text, '$');
                    proof {
                        assert(accum_text(input0, start, i + 1) == accum_text(
                            input0,
                            start,
                            i as int,
                        ) + (seq!['$'] + input0[i as int]->InlineMath_0@ + seq!['$']));
                        assert(text@ =~= accum_text(input0, start, i + 1));
                    }
                },
                _ => {
                    proof {
                        assert(scan_stop(input0, i as int, end) == i as int);
                    }
                    let label = crate::tokens::token_label_of(&self.input[i]);
                    self.builder.logs.push(LogLine::AccumulateError(desc.to_owned(), label));
                    proof {
                        assert(self.builder.logs@.take(old(self).builder.logs@.len() as int) =~= old(
                            self,
                        ).builder.logs@);
                    }
                    return None;
                },
            }
        }
    }
}

} // verus!

verus! {

/// The part of a path after its last slash (the whole path if it has none).
pub open spec fn path_basename(s: Seq<char>) -> Seq<char>
    decreases s.len(),
{
    if s.len() == 0 || s.last() == '/' {
        Seq::empty()
    } else {
        path_basename(s.drop_last()).push(s.last())
    }
}

/// Whether a path names an SVG file: its basename has a nonempty stem and
/// the extension `svg` (case-sensitive).
pub open spec fn has_svg_ext(s: Seq<char>) -> bool {
    let name = path_basename(s);
    name.len() >= 5 && name.subrange(name.len() - 4, name.len() as int) == ".svg"@
}

proof fn lemma_basename(s: Seq<char>, k: int)
    requires
        0 <= k <= s.len(),
        forall|m: int| k <= m < s.len() ==> s[m] != '/',
        k > 0 ==> s[k - 1] == '/',
    ensures
        path_basename(s) == s.subrange(k, s.len() as int),
    decreases s.len(),
{
    if s.len() == 0 {
        assert(path_basename(s) =~= s.subrange(k, s.len() as int));
    } else if k == s.len() {
        assert(s.last() == '/');
        assert(path_basename(s) =~= s.subrange(k, s.len() as int));
    } else {
        assert(s.last() != '/');
        lemma_basename(s.drop_last(), k);
        assert(path_basename(s) == s.drop_last().subrange(k, s.len() - 1).push(s.last()));
        assert(s.drop_last().subrange(k, s.len() - 1).push(s.last()) =~= s.subrange(
            k,
            s.len() as int,
        ));
    }
}

/// Whether a path names an SVG file.
pub fn has_svg_ext_exec(path: &str) -> (r: bool)
    ensures
        r == has_svg_ext(path@),
{
    let v = crate::strutil::str_chars(path);
    let n = v.len();
    let mut k: usize = n;
    while k > 0 && v[k - 1] != '/'
        invariant
            k <= n == v@.len(),
            forall|m: int| k <= m < n ==> v@[m] != '/',
        decreases k,
    {
        k = k - 1;
    }
    proof {
        lemma_basename(v@, k as int);
    }
    let name_len = n - k;
    if name_len < 5 {
        return false;
    }
    let r = v[n - 4] == '.' && v[n - 3] == 's' && v[n - 2] == 'v' && v[n - 1] == 'g';
    proof {
        reveal_strlit(".svg");
        let name = path_basename(path@);
        assert(name.len() == name_len);
        let tail = name.subrange(name.len() - 4, name.len() as int);
        assert(tail[0] == v@[n - 4] && tail[1] == v@[n - 3] && tail[2] == v@[n - 2] && tail[3]
            == v@[n - 1]);
        if r {
            assert(tail =~= ".svg"@);
        } else {
            assert(tail != ".svg"@);
        }
    }
    r
}

/// The image tag emitted for a stored raster image: site-rooted source path
/// and the alt text.
pub open spec fn img_tag(path: Seq<char>, alt: Seq<char>) -> Seq<char> {
    "<img src=\"/"@ + path + "\" alt=\""@ + alt + "\">"@
}

/// Builds the image tag for a stored asset path and alt text.
pub fn img_tag_exec(path: &str, alt: &str) -> (r: String)
    ensures
        r@ == img_tag(path@, alt@),
{
    let mut s = String::from_str("<img src=\"/");
    s.append(path);
    s.append("\" alt=\"");
    s.append(alt);
    s.append("\">");
    proof {
        assert(s@ =~= img_tag(path@, alt@));
    }
    s
}

impl CodeImageStage {
    /// Reseeds the buffer as a figure: the end marker is replaced by the
    /// closing markup, the alt-text tokens stay in place, and the synthesized
    /// content leads, followed by the caption opening.
    fn wrap_figure(&mut self, lead: Token)
        requires
            old(self).buffer@.len() >= 1,
        ensures
            final(self).pos == old(self).pos,
            final(self).input == old(self).input,
            final(self).builder == old(self).builder,
            final(self).store == old(self).store,
            views(final(self).buffer@) == seq![lead@, TokenV::Html("<figcaption>"@)] + views(
                old(self).buffer@.drop_last(),
            ) + seq![TokenV::Html("</figcaption></figure>"@)],
    {
        let popped = self.buffer.pop_back();
        self.buffer.push_back(Token::Html("</figcaption></figure>".to_owned()));
        self.buffer.push_front(Token::Html("<figcaption>".to_owned()));
        self.buffer.push_front(lead);
        proof {
            assert(views(self.buffer@) =~= seq![lead@, TokenV::Html("<figcaption>"@)] + views(
                old(self).buffer@.drop_last(),
            ) + seq![TokenV::Html("</figcaption></figure>"@)]);
        }
    }
}

} // verus!

verus! {

/// Whether `r` emits a token whose content is `t`.
pub open spec fn emits(r: Option<Token>, t: TokenV) -> bool {
    r matches Option::Some(x) && x@ == t
}

/// Whether `post`'s log is `pre`'s with one event appended, `l`.
pub open spec fn one_log(pre: Seq<LogLine>, post: Seq<LogLine>, l: LogLine) -> bool {
    crate::post::logs_plus_one(pre, post) && post.last() == l
}

/// Which `String`-carrying log event a step appends.
pub enum LogKind {
    Accumulate,
    Unsupported,
    UrlError,
    ResolveError,
    ReadError,
    TranscodeErr,
    TranscodeOk,
    SvgOk,
}

/// Whether `post`'s log is `pre`'s with one event of kind `k` appended whose
/// text payload is `s`.
pub open spec fn one_log_text(pre: Seq<LogLine>, post: Seq<LogLine>, k: LogKind, s: Seq<char>) -> bool {
    &&& crate::post::logs_plus_one(pre, post)
    &&& match (post.last(), k) {
        (LogLine::AccumulateError(a, _), LogKind::Accumulate) => a@ == s,
        (LogLine::UnsupportedLanguage(a), LogKind::Unsupported) => a@ == s,
        (LogLine::ImageUrlError(a), LogKind::UrlError) => a@ == s,
        (LogLine::ImageResolveError(a), LogKind::ResolveError) => a@ == s,
        (LogLine::ImageReadError(a), LogKind::ReadError) => a@ == s,
        (LogLine::TranscodeError(a), LogKind::TranscodeErr) => a@ == s,
        (LogLine::TranscodeInfo(a), LogKind::TranscodeOk) => a@ == s,
        (LogLine::SvgInlined(a), LogKind::SvgOk) => a@ == s,
        _ => false,
    }
}

impl CodeImageStage {
    /// The replay outcome of a lookahead that began at `pre.pos + 1`: the
    /// start token is emitted and the pulled tokens stand in the buffer
    /// untouched, to reappear verbatim.
    pub open spec fn replays(pre: Self, post: Self, r: Option<Token>, e: AccumEnd) -> bool {
        let cto = consumed_to(pre.input@, pre.pos + 1, e);
        &&& emits(r, pre.input@[pre.pos as int]@)
        &&& post.pos == cto
        &&& views(post.buffer@) == views(pre.input@.subrange(pre.pos + 1, cto))
        &&& post.builder.meta == pre.builder.meta
        &&& post.store == pre.store
    }

    /// What one pull does when the head of the upstream is a fenced code
    /// block start carrying the language `lang`.
    pub open spec fn code_step(pre: Self, post: Self, r: Option<Token>, lang: Seq<char>) -> bool {
        let i = pre.pos as int;
        let found = scan_found(pre.input@, i + 1, AccumEnd::Code);
        let j = scan_stop(pre.input@, i + 1, AccumEnd::Code);
        if !found {
            &&& Self::replays(pre, post, r, AccumEnd::Code)
            &&& if j < pre.input@.len() {
                &&& one_log_text(
                    pre.builder.logs@,
                    post.builder.logs@,
                    LogKind::Accumulate,
                    "code block"@,
                )
                &&& post.builder.logs@.last() matches LogLine::AccumulateError(_, k) && k@
                    == crate::tokens::token_label(pre.input@[j]@)
            } else {
                post.builder.logs@ == pre.builder.logs@
            }
        } else {
            let text = trim_end_ws(accum_text(pre.input@, i + 1, j));
            match highlight_outcome(lang, text) {
                Result::Ok(h) => {
                    &&& emits(r, pre.input@[i]@)
                    &&& post.pos == j + 1
                    &&& views(post.buffer@) == seq![
                        TokenV::Html(line_marked(h)),
                        TokenV::CodeEnd,
                    ]
                    &&& post.builder.meta == pre.builder.meta
                    &&& post.store == pre.store
                    &&& post.builder.logs@ == pre.builder.logs@
                },
                Result::Err(HighlightFailure::Unsupported) => {
                    &&& Self::replays(pre, post, r, AccumEnd::Code)
                    &&& one_log_text(
                        pre.builder.logs@,
                        post.builder.logs@,
                        LogKind::Unsupported,
                        lang,
                    )
                },
                Result::Err(HighlightFailure::Internal) => {
                    &&& Self::replays(pre, post, r, AccumEnd::Code)
                    &&& one_log(pre.builder.logs@, post.builder.logs@, LogLine::HighlightError)
                },
            }
        }
    }

    /// What one pull does when the head is the metadata block start.
    pub open spec fn meta_step(pre: Self, post: Self, r: Option<Token>) -> bool {
        let i = pre.pos as int;
        let found = scan_found(pre.input@, i + 1, AccumEnd::Meta);
        let j = scan_stop(pre.input@, i + 1, AccumEnd::Meta);
        let cto = consumed_to(pre.input@, i + 1, AccumEnd::Meta);
        if !found {
            &&& Self::replays(pre, post, r, AccumEnd::Meta)
            &&& if j < pre.input@.len() {
                &&& one_log_text(
                    pre.builder.logs@,
                    post.builder.logs@,
                    LogKind::Accumulate,
                    "metadata"@,
                )
                &&& post.builder.logs@.last() matches LogLine::AccumulateError(_, k) && k@
                    == crate::tokens::token_label(pre.input@[j]@)
            } else {
                post.builder.logs@ == pre.builder.logs@
            }
        } else {
            match sp_parse_meta(accum_text(pre.input@, i + 1, j)) {
                Option::Some(fields) => {
                    &&& post.buffer@.len() == 0
                    &&& post.store == pre.store
                    &&& if cto < pre.input@.len() {
                        emits(r, pre.input@[cto]@) && post.pos == cto + 1
                    } else {
                        r is None && post.pos == cto
                    }
                    &&& post.builder.meta matches Option::Some(m) && {
                        &&& match fields.title {
                            Option::Some(t) => m.title@ == t,
                            Option::None => m.title@ == crate::post::spec_file_name(pre.builder),
                        }
                        &&& match fields.date {
                            Option::Some(d) => m.date == d,
                            Option::None => m.date == pre.builder.fallback_date,
                        }
                        &&& match fields.tags {
                            Option::Some(t) => crate::meta::strs_view(m.tags@) == t,
                            Option::None => m.tags@.len() == 0,
                        }
                        &&& match (fields.ghcommentid, fields.ghcommentauthors) {
                            (Option::Some(id), Option::Some(a)) => m.ghcomment matches Option::Some(
                                g,
                            ) && g.0 == id && crate::meta::strs_view(g.1@) == a,
                            _ => m.ghcomment is None,
                        }
                    }
                    &&& post.builder.logs@ == pre.builder.logs@ + (match fields.title {
                        Option::Some(_) => Seq::<LogLine>::empty(),
                        Option::None => seq![LogLine::DefaultTitle],
                    }) + (match fields.date {
                        Option::Some(_) => Seq::<LogLine>::empty(),
                        Option::None => seq![LogLine::DefaultDate],
                    }) + seq![LogLine::MetadataRead]
                },
                Option::None => {
                    &&& Self::replays(pre, post, r, AccumEnd::Meta)
                    &&& one_log(pre.builder.logs@, post.builder.logs@, LogLine::MetadataError)
                },
            }
        }
    }

    /// The figure shape the buffer takes when an image block is replaced:
    /// the synthesized content, the caption opening, the original alt-text
    /// tokens, and the caption/figure closing; `<figure>` itself is emitted.
    pub open spec fn figure_shape(pre: Self, post: Self, r: Option<Token>, j: int) -> bool {
        let i = pre.pos as int;
        &&& emits(r, TokenV::Html("<figure>"@))
        &&& post.pos == j + 1
        &&& post.buffer@.len() == (j - (i + 1)) + 3
        &&& views(post.buffer@)[0] is Html
        &&& views(post.buffer@)[1] == TokenV::Html("<figcaption>"@)
        &&& views(post.buffer@).subrange(2, 2 + (j - (i + 1))) == views(
            pre.input@.subrange(i + 1, j),
        )
        &&& views(post.buffer@).last() == TokenV::Html("</figcaption></figure>"@)
    }

    /// What one pull does when the head is an image reference start with
    /// destination `url`.
    pub open spec fn image_step(pre: Self, post: Self, r: Option<Token>, url: Seq<char>) -> bool {
        let i = pre.pos as int;
        let found = scan_found(pre.input@, i + 1, AccumEnd::Image);
        let j = scan_stop(pre.input@, i + 1, AccumEnd::Image);
        let alt = accum_text(pre.input@, i + 1, j);
        if !found {
            &&& Self::replays(pre, post, r, AccumEnd::Image)
            &&& if j < pre.input@.len() {
                &&& one_log_text(
                    pre.builder.logs@,
                    post.builder.logs@,
                    LogKind::Accumulate,
                    "image"@,
                )
                &&& post.builder.logs@.last() matches LogLine::AccumulateError(_, k) && k@
                    == crate::tokens::token_label(pre.input@[j]@)
            } else {
                post.builder.logs@ == pre.builder.logs@
            }
        } else {
            match url_kind_of(url) {
                UrlKind::Absolute => {
                    &&& Self::replays(pre, post, r, AccumEnd::Image)
                    &&& post.builder.logs@ == pre.builder.logs@
                },
                UrlKind::Invalid => {
                    &&& Self::replays(pre, post, r, AccumEnd::Image)
                    &&& one_log_text(
                        pre.builder.logs@,
                        post.builder.logs@,
                        LogKind::UrlError,
                        url,
                    )
                },
                UrlKind::Relative => match crate::post::spec_resolve(pre.builder, url) {
                    Option::None => {
                        &&& Self::replays(pre, post, r, AccumEnd::Image)
                        &&& one_log_text(
                            pre.builder.logs@,
                            post.builder.logs@,
                            LogKind::ResolveError,
                            url,
                        )
                    },
                    Option::Some(bytes) => {
                        &&& post.builder.meta == pre.builder.meta
                        &&& if has_svg_ext(url) {
                            Self::svg_step(pre, post, r, url, bytes, j)
                        } else {
                            Self::raster_step(pre, post, r, url, alt, bytes, j)
                        }
                    },
                },
            }
        }
    }

    /// The SVG branch: the file must be text; its optimized markup — or, if
    /// any optimization step fails, the raw source verbatim, with a warning —
    /// replaces the image block as a figure.  The store is never touched.
    pub open spec fn svg_step(
        pre: Self,
        post: Self,
        r: Option<Token>,
        url: Seq<char>,
        bytes: Seq<u8>,
        j: int,
    ) -> bool {
        &&& post.store == pre.store
        &&& match crate::strutil::utf8_chars(bytes) {
            Option::None => {
                &&& Self::replays(pre, post, r, AccumEnd::Image)
                &&& one_log_text(
                    pre.builder.logs@,
                    post.builder.logs@,
                    LogKind::ReadError,
                    url,
                )
            },
            Option::Some(src) => {
                &&& Self::figure_shape(pre, post, r, j)
                &&& match crate::svg::svg_optimized(
                    src,
                    accum_text(pre.input@, pre.pos + 1, j),
                ) {
                    Option::Some(m) => {
                        &&& views(post.buffer@)[0] == TokenV::Html(m)
                        &&& one_log_text(
                            pre.builder.logs@,
                            post.builder.logs@,
                            LogKind::SvgOk,
                            url,
                        )
                    },
                    Option::None => {
                        &&& views(post.buffer@)[0] == TokenV::Html(src)
                        &&& post.builder.logs@.len() == pre.builder.logs@.len() + 2
                        &&& post.builder.logs@.take(pre.builder.logs@.len() as int)
                            == pre.builder.logs@
                        &&& post.builder.logs@[pre.builder.logs@.len() as int]
                            matches LogLine::SvgOptimizeWarning(w) && w@ == url
                        &&& post.builder.logs@.last() matches LogLine::SvgInlined(s) && s@ == url
                    },
                }
            },
        }
    }

    /// The raster branch: a file that decodes to encodable pixel content is
    /// losslessly re-encoded as WebP, the encoding is stored under its
    /// content hash, and an `<img>` referencing the deduplicated path
    /// replaces the image block as a figure; a decode or encode failure
    /// leaves the block untouched.
    pub open spec fn raster_step(
        pre: Self,
        post: Self,
        r: Option<Token>,
        url: Seq<char>,
        alt: Seq<char>,
        bytes: Seq<u8>,
        j: int,
    ) -> bool {
        let d = crate::raster::decoded_image(bytes);
        if d matches Result::Ok(p) && crate::raster::webp_encodable(p) {
            let webp = crate::raster::webp_encoding(d->Ok_0);
            &&& post.store.contents() == store_after(pre.store.contents(), webp, "webp"@)
            &&& Self::figure_shape(pre, post, r, j)
            &&& views(post.buffer@)[0] == TokenV::Html(
                img_tag(store_path(pre.store.contents(), webp, "webp"@), alt),
            )
            &&& one_log_text(
                pre.builder.logs@,
                post.builder.logs@,
                LogKind::TranscodeOk,
                url,
            )
        } else {
            &&& Self::replays(pre, post, r, AccumEnd::Image)
            &&& one_log_text(
                pre.builder.logs@,
                post.builder.logs@,
                LogKind::TranscodeErr,
                url,
            )
            &&& post.store == pre.store
        }
    }

    /// What one pull of the stage does, for every state.
    pub open spec fn step_spec(pre: Self, post: Self, r: Option<Token>) -> bool {
        if pre.buffer@.len() > 0 {
            &&& emits(r, pre.buffer@[0]@)
            &&& post.buffer@ == pre.buffer@.drop_first()
            &&& post.pos == pre.pos
            &&& post.builder == pre.builder
            &&& post.store == pre.store
        } else if pre.pos >= pre.input@.len() {
            r is None && post == pre
        } else {
            match pre.input@[pre.pos as int] {
                Token::CodeStart(lang) => Self::code_step(pre, post, r, lang@),
                Token::MetaStart => Self::meta_step(pre, post, r),
                Token::ImageStart { url, title } => Self::image_step(pre, post, r, url@),
                _ => {
                    &&& emits(r, pre.input@[pre.pos as int]@)
                    &&& post.pos == pre.pos + 1
                    &&& post.buffer@ == pre.buffer@
                    &&& post.builder == pre.builder
                    &&& post.store == pre.store
                },
            }
        }
    }
}

} // verus!

verus! {

impl CodeImageStage {
    /// One pull of the stage: replayed buffer tokens come first; then the
    /// next upstream token is pulled, and a code block, image reference or
    /// metadata block triggers lookahead-then-decide as `step_spec` states.
    pub fn next(&mut self) -> (r: Option<Token>)
        requires
            old(self).wf(),
        ensures
            final(self).wf(),
            Self::same_doc(*old(self), *final(self)),
            Self::step_spec(*old(self), *final(self), r),
            r is Some ==> 2 * (final(self).input@.len() - final(self).pos)
                + final(self).buffer@.len() < 2 * (old(self).input@.len() - old(self).pos)
                + old(self).buffer@.len(),
    {
        if self.buffer.len() > 0 {
            let t = self.buffer.pop_front();
            proof {
                assert(t matches Some(x) && x@ == views(old(self).buffer@)[0]);
            }
            return t;
        }
        if self.pos >= self.input.len() {
            return None;
        }
        let ghost pre = *self;
        let i = self.pos;
        let head = self.input[i].clone();
        self.pos = i + 1;
        proof {
            lemma_scan_stop_bounds(self.input@, i + 1, AccumEnd::Code);
            lemma_scan_stop_bounds(self.input@, i + 1, AccumEnd::Image);
            lemma_scan_stop_bounds(self.input@, i + 1, AccumEnd::Meta);
        }
        match &head {
            Token::CodeStart(lang) => {
                match self.accumulate_plain_text(AccumEnd::Code, "code block") {
                    None => Some(head),
                    Some(source) => {
                        let chars = crate::strutil::str_chars(source.as_str());
                        let trimmed = trim_end_exec(&chars);
                        match highlight(lang.as_str(), trimmed.as_str()) {
                            Ok(html) => {
                                let marked = mark_lines_exec(html.as_str());
                                self.buffer.clear();
                                self.buffer.push_back(Token::Html(marked));
                                self.buffer.push_back(Token::CodeEnd);
                                proof {
                                    assert(views(self.buffer@) =~= seq![
                                        TokenV::Html(
                                            line_marked(
                                                highlight_outcome(
                                                    pre.input@[i as int]->CodeStart_0@,
                                                    trim_end_ws(
                                                        accum_text(
                                                            pre.input@,
                                                            i + 1,
                                                            scan_stop(
                                                                pre.input@,
                                                                i + 1,
                                                                AccumEnd::Code,
                                                            ),
                                                        ),
                                                    ),
                                                )->Ok_0,
                                            ),
                                        ),
                                        TokenV::CodeEnd,
                                    ]);
                                }
                                Some(head)
                            },
                            Err(HighlightFailure::Unsupported) => {
                                self.builder.logs.push(LogLine::UnsupportedLanguage(lang.clone()));
                                proof {
                                    assert(self.builder.logs@.take(
                                        pre.builder.logs@.len() as int,
                                    ) =~= pre.builder.logs@);
                                }
                                Some(head)
                            },
                            Err(HighlightFailure::Internal) => {
                                self.builder.logs.push(LogLine::HighlightError);
                                proof {
                                    assert(self.builder.logs@.take(
                                        pre.builder.logs@.len() as int,
                                    ) =~= pre.builder.logs@);
                                }
                                Some(head)
                            },
                        }
                    },
                }
            },
            Token::MetaStart => {
                match self.accumulate_plain_text(AccumEnd::Meta, "metadata") {
                    None => Some(head),
                    Some(source) => {
                        match parse_meta_block(source.as_str()) {
                            None => {
                                self.builder.logs.push(LogLine::MetadataError);
                                proof {
                                    assert(self.builder.logs@.take(
                                        pre.builder.logs@.len() as int,
                                    ) =~= pre.builder.logs@);
                                }
                                Some(head)
                            },
                            Some(fields) => {
                                self.builder.apply_meta_fields(fields);
                                self.buffer.clear();
                                if self.pos < self.input.len() {
                                    let k = self.pos;
                                    let t = self.input[k].clone();
                                    self.pos = k + 1;
                                    Some(t)
                                } else {
                                    None
                                }
                            },
                        }
                    },
                }
            },
            Token::ImageStart { url, title: _ } => {
                let dest = url.clone();
                match self.accumulate_plain_text(AccumEnd::Image, "image") {
                    None => Some(head),
                    Some(alt) => {
                        match classify_url(dest.as_str()) {
                            UrlKind::Absolute => Some(head),
                            UrlKind::Invalid => {
                                self.builder.logs.push(LogLine::ImageUrlError(dest));
                                proof {
                                    assert(self.builder.logs@.take(
                                        pre.builder.logs@.len() as int,
                                    ) =~= pre.builder.logs@);
                                }
                                Some(head)
                            },
                            UrlKind::Relative => {
                                match self.builder.resolve_file(dest.as_str()) {
                                    None => {
                                        self.builder.logs.push(
                                            LogLine::ImageResolveError(dest),
                                        );
                                        proof {
                                            assert(self.builder.logs@.take(
                                                pre.builder.logs@.len() as int,
                                            ) =~= pre.builder.logs@);
                                        }
                                        Some(head)
                                    },
                                    Some(idx) => {
                                        proof {
                                            let j = scan_stop(pre.input@, i + 1, AccumEnd::Image);
                                            assert(views(self.buffer@) =~= views(
                                                pre.input@.subrange(i + 1, j + 1),
                                            ));
                                        }
                                        if has_svg_ext_exec(dest.as_str()) {
                                            self.handle_svg_image(Ghost(pre), idx, &dest, alt, head)
                                        } else {
                                            self.handle_raster_image(
                                                Ghost(pre),
                                                idx,
                                                &dest,
                                                alt,
                                                head,
                                            )
                                        }
                                    },
                                }
                            },
                        }
                    },
                }
            },
            _ => Some(head),
        }
    }
}

} // verus!

verus! {

impl CodeImageStage {
    /// The state a block-replacement handler starts from: the image start
    /// token stands at `pre.pos`, its alt text was accumulated successfully,
    /// the buffer holds the pulled block, and `idx` names the resolved file.
    pub open spec fn image_block_ready(
        pre: Self,
        cur: Self,
        head: Token,
        idx: usize,
        url: Seq<char>,
        alt: Seq<char>,
    ) -> bool {
        let i = pre.pos as int;
        let j = scan_stop(pre.input@, i + 1, AccumEnd::Image);
        &&& pre.wf()
        &&& cur.wf()
        &&& i < pre.input@.len()
        &&& pre.input@[i] matches Token::ImageStart { url: u, title: _ } && u@ == url
        &&& head@ == pre.input@[i]@
        &&& scan_found(pre.input@, i + 1, AccumEnd::Image)
        &&& Self::same_doc(pre, cur)
        &&& cur.pos as int == j + 1
        &&& views(cur.buffer@) == views(pre.input@.subrange(i + 1, j + 1))
        &&& cur.builder.meta == pre.builder.meta
        &&& cur.builder.logs == pre.builder.logs
        &&& cur.store == pre.store
        &&& alt == accum_text(pre.input@, i + 1, j)
        &&& idx < pre.builder.files@.len()
        &&& pre.builder.files@[idx as int].0@ == url
        &&& crate::post::spec_resolve(pre.builder, url) == Option::Some(
            pre.builder.files@[idx as int].1@,
        )
    }

    /// Inlines a resolved SVG image: the file is read as text, optimized,
    /// and emitted as a figure; a file that is not text leaves the block
    /// untouched.
    fn handle_svg_image(
        &mut self,
        Ghost(pre): Ghost<CodeImageStage>,
        idx: usize,
        url: &String,
        alt: String,
        head: Token,
    ) -> (r: Option<Token>)
        requires
            Self::image_block_ready(pre, *old(self), head, idx, url@, alt@),
        ensures
            final(self).wf(),
            Self::same_doc(pre, *final(self)),
            final(self).builder.meta == pre.builder.meta,
            Self::svg_step(
                pre,
                *final(self),
                r,
                url@,
                pre.builder.files@[idx as int].1@,
                scan_stop(pre.input@, pre.pos + 1, AccumEnd::Image),
            ),
            2 * (final(self).input@.len() - final(self).pos) + final(self).buffer@.len() < 2 * (
            pre.input@.len() - pre.pos),
    {
        let ghost i = pre.pos as int;
        let ghost j = scan_stop(pre.input@, i + 1, AccumEnd::Image);
        proof {
            lemma_scan_stop_bounds(pre.input@, i + 1, AccumEnd::Image);
            assert(views(self.buffer@).len() == self.buffer@.len());
            assert(self.buffer@.len() == j - i);
        }
        match crate::strutil::bytes_to_string(&self.builder.files[idx].1) {
            Err(_) => {
                self.builder.logs.push(LogLine::ImageReadError(url.clone()));
                proof {
                    assert(self.builder.logs@.take(pre.builder.logs@.len() as int) =~= pre
                        .builder.logs@);
                }
                Some(head)
            },
            Ok(srctext) => {
                let ghost src_chars = srctext@;
                let result = crate::svg::optimize_svg(srctext, alt.as_str());
                if result.1 {
                    self.builder.logs.push(LogLine::SvgOptimizeWarning(url.clone()));
                }
                self.builder.logs.push(LogLine::SvgInlined(url.clone()));
                proof {
                    assert(self.builder.logs@.take(pre.builder.logs@.len() as int) =~= pre
                        .builder.logs@);
                }
                let ghost buf_before = self.buffer@;
                self.wrap_figure(Token::Html(result.0));
                proof {
                    assert(views(buf_before.drop_last()) =~= views(buf_before).subrange(
                        0,
                        views(buf_before).len() - 1,
                    ));
                    assert(views(pre.input@.subrange(i + 1, j + 1)).subrange(0, j - i - 1) =~= views(
                        pre.input@.subrange(i + 1, j),
                    ));
                    assert(views(self.buffer@).subrange(2, 2 + (j - (i + 1))) =~= views(
                        pre.input@.subrange(i + 1, j),
                    ));
                }
                Some(Token::Html("<figure>".to_owned()))
            },
        }
    }

    /// Embeds a resolved raster image: decode, re-encode losslessly as WebP,
    /// store under the content hash, and emit a figure referencing the
    /// deduplicated path; a decode or encode failure leaves the block
    /// untouched.
    fn handle_raster_image(
        &mut self,
        Ghost(pre): Ghost<CodeImageStage>,
        idx: usize,
        url: &String,
        alt: String,
        head: Token,
    ) -> (r: Option<Token>)
        requires
            Self::image_block_ready(pre, *old(self), head, idx, url@, alt@),
        ensures
            final(self).wf(),
            Self::same_doc(pre, *final(self)),
            final(self).builder.meta == pre.builder.meta,
            Self::raster_step(
                pre,
                *final(self),
                r,
                url@,
                accum_text(pre.input@, pre.pos + 1, scan_stop(pre.input@, pre.pos + 1, AccumEnd::Image)),
                pre.builder.files@[idx as int].1@,
                scan_stop(pre.input@, pre.pos + 1, AccumEnd::Image),
            ),
            2 * (final(self).input@.len() - final(self).pos) + final(self).buffer@.len() < 2 * (
            pre.input@.len() - pre.pos),
    {
        let ghost i = pre.pos as int;
        let ghost j = scan_stop(pre.input@, i + 1, AccumEnd::Image);
        proof {
            lemma_scan_stop_bounds(pre.input@, i + 1, AccumEnd::Image);
            assert(views(self.buffer@).len() == self.buffer@.len());
            assert(self.buffer@.len() == j - i);
        }
        match transcode_webp(&self.builder.files[idx].1) {
            Err(_) => {
                self.builder.logs.push(LogLine::TranscodeError(url.clone()));
                proof {
                    assert(self.builder.logs@.take(pre.builder.logs@.len() as int) =~= pre
                        .builder.logs@);
                }
                Some(head)
            },
            Ok(webp) => {
                self.builder.logs.push(LogLine::TranscodeInfo(url.clone()));
                proof {
                    assert(self.builder.logs@.take(pre.builder.logs@.len() as int) =~= pre
                        .builder.logs@);
                }
                let path = self.store.store_asset(webp, "webp");
                let tag = img_tag_exec(path.as_str(), alt.as_str());
                let ghost buf_before = self.buffer@;
                self.wrap_figure(Token::Html(tag));
                proof {
                    assert(views(buf_before.drop_last()) =~= views(buf_before).subrange(
                        0,
                        views(buf_before).len() - 1,
                    ));
                    assert(views(pre.input@.subrange(i + 1, j + 1)).subrange(0, j - i - 1) =~= views(
                        pre.input@.subrange(i + 1, j),
                    ));
                    assert(views(self.buffer@).subrange(2, 2 + (j - (i + 1))) =~= views(
                        pre.input@.subrange(i + 1, j),
                    ));
                }
                Some(Token::Html("<figure>".to_owned()))
            },
        }
    }
}

} // verus!

verus! {

/// What the math pass emits for the stream `s`: a rendered math token
/// becomes one markup token; a math token whose rendering fails is dropped
/// entirely, with no output; every other token passes through unchanged.
pub open spec fn math_rendered(s: Seq<Token>) -> Seq<TokenV>
    decreases s.len(),
{
    if s.len() == 0 {
        Seq::empty()
    } else {
        match s[0] {
            Token::InlineMath(m) => match mathml_outcome(m@, false) {
                Result::Ok(h) => seq![TokenV::Html(h)] + math_rendered(s.drop_first()),
                Result::Err(_) => math_rendered(s.drop_first()),
            },
            Token::DisplayMath(m) => match mathml_outcome(m@, true) {
                Result::Ok(h) => seq![TokenV::Html(h)] + math_rendered(s.drop_first()),
                Result::Err(_) => math_rendered(s.drop_first()),
            },
            _ => seq![s[0]@] + math_rendered(s.drop_first()),
        }
    }
}

/// The math render errors the pass logs over the stream `s`, in order.
pub open spec fn math_errors(s: Seq<Token>) -> Seq<LogLine>
    decreases s.len(),
{
    if s.len() == 0 {
        Seq::empty()
    } else {
        match s[0] {
            Token::InlineMath(m) => match mathml_outcome(m@, false) {
                Result::Ok(_) => math_errors(s.drop_first()),
                Result::Err(_) => seq![LogLine::MathError] + math_errors(s.drop_first()),
            },
            Token::DisplayMath(m) => match mathml_outcome(m@, true) {
                Result::Ok(_) => math_errors(s.drop_first()),
                Result::Err(_) => seq![LogLine::MathError] + math_errors(s.drop_first()),
            },
            _ => math_errors(s.drop_first()),
        }
    }
}

/// The math rendering stage: one pass over the already-assembled stream.
pub fn render_math(input: Vec<Token>, logs: &mut Vec<LogLine>) -> (out: Vec<Token>)
    ensures
        views(out@) == math_rendered(input@),
        final(logs)@ == old(logs)@ + math_errors(input@),
{
    let mut out: Vec<Token> = Vec::new();
    let mut i: usize = 0;
    proof {
        assert(input@.skip(0) =~= input@);
        assert(views(out@) =~= Seq::<TokenV>::empty());
        assert(old(logs)@ + Seq::<LogLine>::empty() =~= old(logs)@);
    }
    while i < input.len()
        invariant
            i <= input@.len(),
            views(out@) + math_rendered(input@.skip(i as int)) == math_rendered(input@),
            logs@ + math_errors(input@.skip(i as int)) == old(logs)@ + math_errors(input@),
        decreases input@.len() - i,
    {
        let ghost rest = input@.skip(i as int);
        proof {
            assert(rest[0] == input@[i as int]);
            assert(rest.drop_first() =~= input@.skip(i + 1));
        }
        let tok = &input[i];
        let display = match tok {
            Token::DisplayMath(_) => true,
            _ => false,
        };
        match tok {
            Token::InlineMath(m) | Token::DisplayMath(m) => {
                match render_mathml(m.as_str(), display) {
                    Ok(html) => {
                        out.push(Token::Html(html));
                        proof {
                            assert(views(out@) =~= views(out@.drop_last()) + seq![
                                out@.last()@,
                            ]);
                        }
                        i = i + 1;
                    },
                    Err(_) => {
                        logs.push(LogLine::MathError);
                        i = i + 1;
                    },
                }
            },
            _ => {
                out.push(tok.clone());
                proof {
                    assert(views(out@) =~= views(out@.drop_last()) + seq![out@.last()@]);
                }
                i = i + 1;
            },
        }
    }
    proof {
        assert(input@.skip(input@.len() as int) =~= Seq::<Token>::empty());
        assert(views(out@) + Seq::<TokenV>::empty() =~= views(out@));
        assert(logs@ + Seq::<LogLine>::empty() =~= logs@);
    }
    out
}

/// One terminated run of the stage from `s0` to `s_end`: `emitted` is
/// exactly the sequence of tokens that successive pulls yield, each pull
/// satisfying `step_spec`, ending with the pull that yields nothing.
pub open spec fn runs_spec(s0: CodeImageStage, s_end: CodeImageStage, emitted: Seq<Token>) -> bool
    decreases emitted.len(),
{
    if emitted.len() == 0 {
        CodeImageStage::step_spec(s0, s_end, Option::None)
    } else {
        exists|s1: CodeImageStage|
            #[trigger] CodeImageStage::step_spec(s0, s1, Option::Some(emitted[0])) && runs_spec(
                s1,
                s_end,
                emitted.drop_first(),
            )
    }
}

/// A whole run of the stage over `input`, starting from an empty buffer at
/// position zero with the given builder and store.
pub open spec fn pipeline_run(
    input: Vec<Token>,
    builder: PostBuilder,
    store: AssetStore,
    s_end: CodeImageStage,
    emitted: Seq<Token>,
) -> bool {
    exists|s0: CodeImageStage|
        {
            &&& #[trigger] runs_spec(s0, s_end, emitted)
            &&& s0.input == input
            &&& s0.pos == 0
            &&& s0.buffer@ == Seq::<Token>::empty()
            &&& s0.builder == builder
            &&& s0.store == store
        }
}

proof fn lemma_runs_cons(
    s0: CodeImageStage,
    s1: CodeImageStage,
    t: Token,
    s_end: CodeImageStage,
    rest: Seq<Token>,
)
    requires
        CodeImageStage::step_spec(s0, s1, Option::Some(t)),
        runs_spec(s1, s_end, rest),
    ensures
        runs_spec(s0, s_end, seq![t] + rest),
{
    let e = seq![t] + rest;
    assert(e[0] == t);
    assert(e.drop_first() =~= rest);
    assert(CodeImageStage::step_spec(s0, s1, Option::Some(e[0])));
}

/// Whether a token triggers no stage: neither a block start a stage rewrites
/// nor a math span.
pub open spec fn plain_token(t: Token) -> bool {
    !(t is CodeStart || t is ImageStart || t is MetaStart || t is InlineMath || t is DisplayMath)
}

/// Whether a whole stream triggers no stage.
pub open spec fn all_plain(s: Seq<Token>) -> bool {
    forall|k: int| 0 <= k < s.len() ==> plain_token(s[k])
}

proof fn lemma_plain_from_views(a: Seq<Token>, b: Seq<Token>)
    requires
        views(a) == views(b),
        all_plain(b),
    ensures
        all_plain(a),
{
    assert(views(a).len() == a.len());
    assert(views(b).len() == b.len());
    assert forall|k: int| 0 <= k < a.len() implies plain_token(a[k]) by {
        assert(views(a)[k] == a[k]@);
        assert(views(b)[k] == b[k]@);
        assert(plain_token(b[k]));
    }
}

proof fn lemma_math_rendered_plain(s: Seq<Token>)
    requires
        all_plain(s),
    ensures
        math_rendered(s) == views(s),
        math_errors(s) == Seq::<LogLine>::empty(),
    decreases s.len(),
{
    if s.len() == 0 {
        assert(math_rendered(s) =~= views(s));
        assert(math_errors(s) =~= Seq::<LogLine>::empty());
    } else {
        assert(plain_token(s[0]));
        lemma_math_rendered_plain(s.drop_first());
        assert(math_rendered(s) =~= views(s));
    }
}

/// Runs the whole content pipeline for one document: the code/image/metadata
/// stage over the upstream tokens, then the math pass over its output.  The
/// output is the math rendering of what some terminated run of the stage
/// (every pull as `step_spec` states) emits, and the metadata, logs and
/// store are that run's; the document identity is untouched; a stream that
/// triggers no stage comes out unchanged, in order.
pub fn process_post(input: Vec<Token>, builder: PostBuilder, store: AssetStore) -> (r: (
    Vec<Token>,
    PostBuilder,
    AssetStore,
))
    ensures
        r.1.file_name == builder.file_name,
        r.1.is_dir == builder.is_dir,
        r.1.files == builder.files,
        r.1.fallback_date == builder.fallback_date,
        exists|s_end: CodeImageStage, mid: Seq<Token>|
            {
                &&& #[trigger] pipeline_run(input, builder, store, s_end, mid)
                &&& views(r.0@) == math_rendered(mid)
                &&& r.1.meta == s_end.builder.meta
                &&& r.1.logs@ == s_end.builder.logs@ + math_errors(mid)
                &&& r.2 == s_end.store
            },
        all_plain(input@) ==> {
            &&& views(r.0@) == views(input@)
            &&& r.1.meta == builder.meta
            &&& r.1.logs@ == builder.logs@
            &&& r.2 == store
        },
{
    let mut stage = CodeImageStage {
        input,
        pos: 0,
        buffer: VecDeque::new(),
        builder,
        store,
    };
    let ghost input0 = stage.input@;
    let ghost s0 = stage;
    let mut mid: Vec<Token> = Vec::new();
    proof {
        assert forall|s_end: CodeImageStage, rest: Seq<Token>| #[trigger]
            runs_spec(stage, s_end, rest) implies runs_spec(s0, s_end, mid@ + rest) by {
            assert(mid@ + rest =~= rest);
        }
    }
    loop
        invariant
            forall|s_end: CodeImageStage, rest: Seq<Token>| #[trigger]
                runs_spec(stage, s_end, rest) ==> runs_spec(s0, s_end, mid@ + rest),
            stage.wf(),
            stage.input@ == input0,
            stage.builder.file_name == builder.file_name,
            stage.builder.is_dir == builder.is_dir,
            stage.builder.files == builder.files,
            stage.builder.fallback_date == builder.fallback_date,
            all_plain(input0) ==> {
                &&& stage.buffer@.len() == 0
                &&& stage.builder.meta == builder.meta
                &&& stage.builder.logs == builder.logs
                &&& stage.store == store
                &&& views(mid@) == views(input0.take(stage.pos as int))
            },
        ensures
            runs_spec(s0, stage, mid@),
            stage.builder.file_name == builder.file_name,
            stage.builder.is_dir == builder.is_dir,
            stage.builder.files == builder.files,
            stage.builder.fallback_date == builder.fallback_date,
            all_plain(input0) ==> {
                &&& stage.builder.meta == builder.meta
                &&& stage.builder.logs == builder.logs
                &&& stage.store == store
                &&& views(mid@) == views(input0)
            },
        decreases 2 * (stage.input@.len() - stage.pos) + stage.buffer@.len(),
    {
        let ghost pre = stage;
        let ghost old_mid = mid@;
        match stage.next() {
            Some(t) => {
                mid.push(t);
                proof {
                    assert forall|s_end: CodeImageStage, rest: Seq<Token>| #[trigger]
                        runs_spec(stage, s_end, rest) implies runs_spec(
                        s0,
                        s_end,
                        mid@ + rest,
                    ) by {
                        lemma_runs_cons(pre, stage, mid@.last(), s_end, rest);
                        assert(old_mid + (seq![mid@.last()] + rest) =~= mid@ + rest);
                    }
                    if all_plain(input0) {
                        assert(plain_token(input0[pre.pos as int]));
                        assert(views(mid@) =~= views(mid@.drop_last()).push(mid@.last()@));
                        assert(input0.take(stage.pos as int) =~= input0.take(
                            pre.pos as int,
                        ).push(input0[pre.pos as int]));
                        assert(views(input0.take(pre.pos as int).push(
                            input0[pre.pos as int],
                        )) =~= views(input0.take(pre.pos as int)).push(
                            input0[pre.pos as int]@,
                        ));
                    }
                }
            },
            None => {
                proof {
                    assert(runs_spec(pre, stage, Seq::<Token>::empty()));
                    assert(mid@ + Seq::<Token>::empty() =~= mid@);
                    if all_plain(input0) {
                        assert(stage.pos == input0.len());
                        assert(input0.take(stage.pos as int) =~= input0);
                    }
                }
                break ;
            },
        }
    }
    proof {
        if all_plain(input0) {
            lemma_plain_from_views(mid@, input0);
            lemma_math_rendered_plain(mid@);
        }
    }
    proof {
        assert(s0.buffer@ =~= Seq::<Token>::empty());
        assert(pipeline_run(input, builder, store, stage, mid@));
    }
    let ghost mid0 = mid@;
    let ghost s_end = stage;
    let CodeImageStage { input: _, pos: _, buffer: _, mut builder, store } = stage;
    let out = render_math(mid, &mut builder.logs);
    proof {
        if all_plain(input0) {
            assert(builder.logs@ + Seq::<LogLine>::empty() =~= builder.logs@);
        }
    }
    (out, builder, store)
}

} // verus!
