//! Rendering of inline and display math to MathML presentation markup.

use vstd::prelude::*;

verus! {

/// What the math renderer returns for a math source and a display mode; the
/// outcome depends on the two arguments alone.
pub uninterp spec fn mathml_outcome(src: Seq<char>, display: bool) -> Result<Seq<char>, ()>;

/// Relies on `pulldown_latex::Parser` and `pulldown_latex::push_mathml`:
/// renders the math source to MathML, in block or inline display mode, with
/// the source as the annotation; an error from the parser or the renderer
/// leaves no usable output.
#[verifier::external_body]
pub(crate) fn render_mathml(src: &str, display: bool) -> (r: Result<String, ()>)
    ensures
        ({
            let o = mathml_outcome(src@, display);
            match r {
                Result::Ok(h) => o matches Result::Ok(v) && h@ == v,
                Result::Err(_) => o is Err,
            }
        }),
{
    let storage = pulldown_latex::Storage::new();
    let parser = pulldown_latex::Parser::new(src, &storage);
    let mut config = pulldown_latex::RenderConfig::default();
    config.display_mode = if display {
        pulldown_latex::config::DisplayMode::Block
    } else {
        pulldown_latex::config::DisplayMode::Inline
    };
    config.annotation = Some(src);
    let mut bad = false;
    let parser = parser.inspect(|e| if e.is_err() { bad = true });
    let mut out = String::new();
    let ok = pulldown_latex::push_mathml(&mut out, parser, config).is_ok();
    if ok && !bad { Ok(out) } else { Err(()) }
}

} // verus!
