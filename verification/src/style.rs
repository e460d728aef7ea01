//! Terminal emphasis through the `colored` styling library.

use vstd::prelude::*;
use crate::text::spec_contains;
use colored::Colorize;

verus! {

/// The ANSI reset escape sequence, which the styling library treats
/// specially when it occurs inside the text being styled.
pub open spec fn reset_marker() -> Seq<char> {
    seq!['\u{1B}', '[', '0', 'm']
}

/// Relies on colored's `Colorize::red`, `Colorize::bold` and the `Display`
/// impl of `ColoredString`: when styling is enabled, the text is written
/// between a style prefix and the reset suffix; when it is disabled, the
/// text is written unchanged. Either way a text that does not itself hold
/// the reset sequence stands verbatim between some prefix and suffix.
/// (A text holding the reset sequence is re-styled inside it, so nothing is
/// claimed for such a text.) Whether styling is enabled depends on the
/// environment, so no more is claimed.
#[verifier::external_body]
pub(crate) fn emphasize(text: &str) -> (r: String)
    ensures
        !spec_contains(text@, reset_marker()) ==> exists|pre: Seq<char>, suf: Seq<char>|
            r@ == pre + text@ + suf,
{
    text.red().bold().to_string()
}

} // verus!
