//! Trusted declarations for the outside crates the engine calls.
//!
//! Each item here wraps exactly one outside call; Verus believes the stated
//! contract, and everything else in the crate is proved against it.

use vstd::prelude::*;

verus! {

/// What the variable pattern `\{\$(.+)\}` captures in a slice: the first
/// capture group of the leftmost match, or nothing when the pattern does
/// not match. The result depends on the slice alone.
pub uninterp spec fn variable_capture(s: Seq<char>) -> Option<Seq<char>>;

/// Relies on regex's `Regex::captures` with the pattern `\{\$(.+)\}`: the
/// name inside a `{$name}` variable reference. The pattern is fixed and
/// valid, so compiling it cannot fail; group 1 is present in every match.
#[verifier::external_body]
pub(crate) fn capture_variable_name(slice: &str) -> (r: Option<String>)
    ensures
        match r {
            Some(name) => variable_capture(slice@) == Some(name@),
            None => variable_capture(slice@) is None,
        },
{
    let pattern = regex::Regex::new(r"\{\$(.+)\}").unwrap();
    match pattern.captures(slice) {
        Some(caps) => caps.get(1).map(|m| m.as_str().to_string()),
        None => None,
    }
}

/// What `str::replace` returns: the slice with every non-overlapping match
/// of `from`, left to right, replaced by `to`. The result depends on the
/// arguments alone.
pub uninterp spec fn str_replace(s: Seq<char>, from: Seq<char>, to: Seq<char>) -> Seq<char>;

/// Relies on str::replace: replaces all matches of `from` with `to`.
#[verifier::external_body]
pub(crate) fn replace_all(s: &str, from: &str, to: &str) -> (r: String)
    ensures
        r@ == str_replace(s@, from@, to@),
{
    s.replace(from, to)
}

/// What latex2mathml's `latex_to_mathml` returns for a source text and
/// display style (`true` for block display): the MathML rendering, or the
/// error text for LaTeX it cannot process. The result depends on the
/// arguments alone.
pub uninterp spec fn latex_render(source: Seq<char>, block: bool) -> Result<Seq<char>, Seq<char>>;

/// The view of a string result, for stating what [`render_latex_to_mathml`]
/// returns.
pub open spec fn string_result_view(r: Result<String, String>) -> Result<Seq<char>, Seq<char>> {
    match r {
        Ok(s) => Ok(s@),
        Err(s) => Err(s@),
    }
}

/// Relies on latex2mathml::latex_to_mathml: converts LaTeX text to MathML,
/// in block or inline display style. The error is carried as its display
/// text.
#[verifier::external_body]
pub(crate) fn render_latex_to_mathml(source: &str, block: bool) -> (r: Result<String, String>)
    ensures
        string_result_view(r) == latex_render(source@, block),
{
    let display = if block {
        latex2mathml::DisplayStyle::Block
    } else {
        latex2mathml::DisplayStyle::Inline
    };
    match latex2mathml::latex_to_mathml(source, display) {
        Ok(mathml) => Ok(mathml),
        Err(error) => Err(format!("{error}")),
    }
}

/// What the clear-float pattern `~{4,}(<|>|=|==)?` captures in a slice:
/// nothing when the pattern does not match, otherwise the direction group
/// of the leftmost match, if present. The result depends on the slice
/// alone.
pub uninterp spec fn clear_float_capture(s: Seq<char>) -> Option<Option<Seq<char>>>;

/// Relies on regex's `Regex::captures` with the pattern `~{4,}(<|>|=|==)?`:
/// the direction marker after a clear-float rule. The pattern is fixed and
/// valid, so compiling it cannot fail.
#[verifier::external_body]
pub(crate) fn capture_clear_float(slice: &str) -> (r: Option<Option<String>>)
    ensures
        match r {
            Some(direction) => match direction {
                Some(d) => clear_float_capture(slice@) == Some(Some(d@)),
                None => clear_float_capture(slice@) == Some(None::<Seq<char>>),
            },
            None => clear_float_capture(slice@) is None,
        },
{
    let pattern = regex::Regex::new(r"~{4,}(<|>|=|==)?").unwrap();
    pattern.captures(slice).map(|caps| caps.get(1).map(|m| m.as_str().to_string()))
}

/// Relies on str::trim: returns the slice with leading and trailing
/// Unicode white-space removed.
#[verifier::external_body]
pub(crate) fn trim_str<'a>(s: &'a str) -> (r: &'a str)
    ensures
        r@ == crate::strings::utrim_ws(s@),
{
    s.trim()
}

/// Relies on str::strip_prefix: `Some(rest)` exactly when the slice
/// starts with the prefix, where `rest` is what follows it.
#[verifier::external_body]
pub(crate) fn strip_prefix_str<'a>(s: &'a str, prefix: &str) -> (r: Option<&'a str>)
    ensures
        match r {
            Some(rest) => s@ == prefix@ + rest@,
            None => !prefix@.is_prefix_of(s@),
        },
{
    s.strip_prefix(prefix)
}

} // verus!
