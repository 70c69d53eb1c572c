//! The token model: one unit of markdown structure flowing through the
//! pipeline.  A token stream is a finite, single-pass, forward-only sequence.

use vstd::prelude::*;

verus! {

/// Spec-level token: the same shape as `Token`, with text as character
/// sequences.  Contracts about synthesized tokens are stated at this level.
pub enum TokenV {
    /// A plain text run.
    Text(Seq<char>),
    /// An inline math span (the raw math source).
    InlineMath(Seq<char>),
    /// A display math span (the raw math source).
    DisplayMath(Seq<char>),
    /// Raw passthrough markup.
    Html(Seq<char>),
    /// Start of a fenced code block carrying its language tag.
    CodeStart(Seq<char>),
    /// End of a fenced code block.
    CodeEnd,
    /// Start of an image reference: destination URL and optional title.
    ImageStart { url: Seq<char>, title: Seq<char> },
    /// End of an image reference (its inner tokens are the alt text).
    ImageEnd,
    /// Start of the leading metadata block.
    MetaStart,
    /// End of the leading metadata block.
    MetaEnd,
    /// Any other unit of structure, passed through untouched.  The key
    /// identifies the original unit for the surrounding renderer.
    Other(int),
}

/// One unit of markdown structure.
#[derive(Debug, PartialEq, Eq)]
pub enum Token {
    Text(String),
    InlineMath(String),
    DisplayMath(String),
    Html(String),
    CodeStart(String),
    CodeEnd,
    ImageStart { url: String, title: String },
    ImageEnd,
    MetaStart,
    MetaEnd,
    Other(usize),
}

impl View for Token {
    type V = TokenV;

    open spec fn view(&self) -> TokenV {
        match self {
            Token::Text(s) => TokenV::Text(s@),
            Token::InlineMath(s) => TokenV::InlineMath(s@),
            Token::DisplayMath(s) => TokenV::DisplayMath(s@),
            Token::Html(s) => TokenV::Html(s@),
            Token::CodeStart(s) => TokenV::CodeStart(s@),
            Token::CodeEnd => TokenV::CodeEnd,
            Token::ImageStart { url, title } => TokenV::ImageStart { url: url@, title: title@ },
            Token::ImageEnd => TokenV::ImageEnd,
            Token::MetaStart => TokenV::MetaStart,
            Token::MetaEnd => TokenV::MetaEnd,
            Token::Other(k) => TokenV::Other(*k as int),
        }
    }
}

impl Clone for Token {
    fn clone(&self) -> (r: Self)
        ensures
            r@ == self@,
    {
        match self {
            Token::Text(s) => Token::Text(s.clone()),
            Token::InlineMath(s) => Token::InlineMath(s.clone()),
            Token::DisplayMath(s) => Token::DisplayMath(s.clone()),
            Token::Html(s) => Token::Html(s.clone()),
            Token::CodeStart(s) => Token::CodeStart(s.clone()),
            Token::CodeEnd => Token::CodeEnd,
            Token::ImageStart { url, title } => Token::ImageStart {
                url: url.clone(),
                title: title.clone(),
            },
            Token::ImageEnd => Token::ImageEnd,
            Token::MetaStart => Token::MetaStart,
            Token::MetaEnd => Token::MetaEnd,
            Token::Other(k) => Token::Other(*k),
        }
    }
}

/// The view of a whole token sequence.
pub open spec fn views(s: Seq<Token>) -> Seq<TokenV> {
    s.map_values(|t: Token| t@)
}

/// A short name for a token's kind, used when an error names a token.
pub open spec fn token_label(t: TokenV) -> Seq<char> {
    match t {
        TokenV::Text(_) => "a text run"@,
        TokenV::InlineMath(_) => "an inline math span"@,
        TokenV::DisplayMath(_) => "a display math span"@,
        TokenV::Html(_) => "raw markup"@,
        TokenV::CodeStart(_) => "a code block start"@,
        TokenV::CodeEnd => "a code block end"@,
        TokenV::ImageStart { .. } => "an image start"@,
        TokenV::ImageEnd => "an image end"@,
        TokenV::MetaStart => "a metadata block start"@,
        TokenV::MetaEnd => "a metadata block end"@,
        TokenV::Other(_) => "another structural unit"@,
    }
}

/// Names a token's kind.
pub fn token_label_of(t: &Token) -> (r: String)
    ensures
        r@ == token_label(t@),
{
    match t {
        Token::Text(_) => "a text run".to_owned(),
        Token::InlineMath(_) => "an inline math span".to_owned(),
        Token::DisplayMath(_) => "a display math span".to_owned(),
        Token::Html(_) => "raw markup".to_owned(),
        Token::CodeStart(_) => "a code block start".to_owned(),
        Token::CodeEnd => "a code block end".to_owned(),
        Token::ImageStart { .. } => "an image start".to_owned(),
        Token::ImageEnd => "an image end".to_owned(),
        Token::MetaStart => "a metadata block start".to_owned(),
        Token::MetaEnd => "a metadata block end".to_owned(),
        Token::Other(_) => "another structural unit".to_owned(),
    }
}

} // verus!
