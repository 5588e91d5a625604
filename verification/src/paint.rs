//! Coloured labels for printed posts, drawn by the `colored` crate.

use vstd::prelude::*;

use colored::Colorize;

verus! {

/// The escape sequence that starts cyan text.
pub open spec fn cyan_start() -> Seq<char> {
    seq!['\x1B', '[', '3', '6', 'm']
}

/// The escape sequence that starts yellow text.
pub open spec fn yellow_start() -> Seq<char> {
    seq!['\x1B', '[', '3', '3', 'm']
}

/// The escape sequence that ends coloured text.
pub open spec fn color_end() -> Seq<char> {
    seq!['\x1B', '[', '0', 'm']
}

/// `label` shows the text `name`: as it is, or between the escape sequence `start` and the
/// one that ends coloured text.
pub open spec fn shows(label: Seq<char>, name: Seq<char>, start: Seq<char>) -> bool {
    label == name || label == start + name + color_end()
}

/// `s` holds no escape character.
pub open spec fn plain(s: Seq<char>) -> bool {
    forall|i: int| 0 <= i < s.len() ==> s[i] != '\x1B'
}

/// `s` written in cyan, as `colored::Colorize::cyan` and `ColoredString`'s `Display` give
/// it. Whether colour is drawn depends on the environment (`CLICOLOR`, `NO_COLOR`,
/// `CLICOLOR_FORCE`, whether the output is a terminal), so the contract states what holds
/// either way, for a text with no escape character: the text as it is, or between the
/// escape sequences of cyan.
#[verifier::external_body]
pub(crate) fn cyan(s: &str) -> (r: String)
    ensures
        plain(s@) ==> shows(r@, s@, cyan_start()),
{
    s.cyan().to_string()
}

/// `s` written in yellow, as `colored::Colorize::yellow` and `ColoredString`'s `Display`
/// give it; as for `cyan`, the contract states what holds whether or not colour is drawn.
#[verifier::external_body]
pub(crate) fn yellow(s: &str) -> (r: String)
    ensures
        plain(s@) ==> shows(r@, s@, yellow_start()),
{
    s.yellow().to_string()
}

} // verus!
