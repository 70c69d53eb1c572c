//! Classification of image reference URLs: only locally resolvable, relative
//! references are embedded; absolute URLs pass through; a reference that fails
//! to parse for any reason other than being relative is an error.

use vstd::prelude::*;

verus! {

/// How a reference URL parses.
#[derive(Clone, Copy, PartialEq, Eq, Debug)]
pub enum UrlKind {
    /// A well-formed absolute URL (it has a scheme).
    Absolute,
    /// A relative reference: parsing fails only for want of a base.
    Relative,
    /// Ill-formed for any other reason.
    Invalid,
}

/// How `url::Url::parse` classifies a string; the outcome depends on the
/// string alone.
pub uninterp spec fn url_kind_of(s: Seq<char>) -> UrlKind;

/// Relies on `url::Url::parse`: `Ok` exactly for absolute URLs, and the error
/// `RelativeUrlWithoutBase` exactly for relative references.
#[verifier::external_body]
pub(crate) fn classify_url(s: &str) -> (r: UrlKind)
    ensures
        r == url_kind_of(s@),
{
    match url::Url::parse(s) {
        Ok(_) => UrlKind::Absolute,
        Err(url::ParseError::RelativeUrlWithoutBase) => UrlKind::Relative,
        Err(_) => UrlKind::Invalid,
    }
}

} // verus!
