//! Text normalization performed before tokenization.
//!
//! The passes here transform the raw source in place. Page inclusion,
//! which also rewrites the text, is an external collaborator and belongs
//! to the host; the native blockquote rule parses quote markers directly,
//! so no quote-block rewriting is needed either.

use vstd::prelude::*;

use crate::outside::{replace_all, str_replace};

verus! {

/// Normalize line endings and tabs: DOS and legacy Mac newlines become
/// line feeds, and each tab becomes four spaces.
pub fn misc_substitute(text: &mut String)
    ensures
        final(text)@ == str_replace(
            str_replace(str_replace(old(text)@, "\r\n"@, "\n"@), "\r"@, "\n"@),
            "\t"@,
            "    "@,
        ),
{
    let step1 = replace_all(text.as_str(), "\r\n", "\n");
    let step2 = replace_all(step1.as_str(), "\r", "\n");
    let step3 = replace_all(step2.as_str(), "\t", "    ");
    *text = step3;
}

/// Quote blocks need no rewriting: the engine parses nested `>` markers
/// natively. The text is left unchanged.
pub fn quote_block_substitute(text: &mut String)
    ensures
        final(text)@ == old(text)@,
{
}

/// Typography normalization: double backticks and doubled apostrophes
/// become curly quotes, and three dots become an ellipsis.
pub fn typography_substitute(text: &mut String)
    ensures
        final(text)@ == str_replace(
            str_replace(str_replace(old(text)@, "``"@, "\u{201c}"@), "''"@, "\u{201d}"@),
            "..."@,
            "\u{2026}"@,
        ),
{
    let step1 = replace_all(text.as_str(), "``", "\u{201c}");
    let step2 = replace_all(step1.as_str(), "''", "\u{201d}");
    let step3 = replace_all(step2.as_str(), "...", "\u{2026}");
    *text = step3;
}

/// Transform the text in preparation for parsing: newline and tab
/// normalization, then typography. Resolving `[[include]]` directives is
/// the host's concern and happens before this pass.
pub fn prefilter(text: &mut String)
    ensures
        final(text)@ == str_replace(
            str_replace(
                str_replace(
                    str_replace(
                        str_replace(str_replace(old(text)@, "\r\n"@, "\n"@), "\r"@, "\n"@),
                        "\t"@,
                        "    "@,
                    ),
                    "``"@,
                    "\u{201c}"@,
                ),
                "''"@,
                "\u{201d}"@,
            ),
            "..."@,
            "\u{2026}"@,
        ),
{
    misc_substitute(text);
    quote_block_substitute(text);
    typography_substitute(text);
}

} // verus!
