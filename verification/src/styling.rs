//! Taking terminal styling out of a message before it is serialised.

use crate::command::{generate_git_command, git_command_text};
use vstd::prelude::*;

verus! {

/// The pattern of a terminal styling sequence: an escape character, `[`,
/// any number of digits and semicolons, and `m`.
pub const STYLE_SEQUENCE: &'static str = "\x1b\\[[0-9;]*m";

/// What the `regex` crate makes of `haystack` when every match of `pattern`
/// is replaced by `replacement`, or `None` where it does not accept
/// `pattern`.
pub uninterp spec fn regex_replace_all(
    pattern: Seq<char>,
    haystack: Seq<char>,
    replacement: Seq<char>,
) -> Option<Seq<char>>;

/// Compiles `pattern` with `regex::Regex::new` and replaces all its matches
/// in `haystack` with `regex::Regex::replace_all`. Nothing is proved of
/// either: the contract only gives the outcome its name, `None` standing
/// for a pattern that `Regex::new` refuses.
#[verifier::external_body]
fn replace_all(pattern: &str, haystack: &str, replacement: &str) -> (replaced: Option<String>)
    ensures
        replaced is Some <==> regex_replace_all(pattern@, haystack@, replacement@) is Some,
        replaced matches Some(text) ==> regex_replace_all(pattern@, haystack@, replacement@)
            == Some(text@),
{
    match regex::Regex::new(pattern) {
        Ok(compiled) => Some(compiled.replace_all(haystack, replacement).into_owned()),
        Err(_) => None,
    }
}

/// `text` without its terminal styling sequences, or `None` where the
/// pattern of such a sequence is not accepted.
pub open spec fn unstyled_text(text: Seq<char>) -> Option<Seq<char>> {
    regex_replace_all(STYLE_SEQUENCE@, text, ""@)
}

/// `s` with every terminal styling sequence taken out.
pub fn remove_ansi_colors(s: &str) -> (clean: Option<String>)
    ensures
        clean is Some <==> unstyled_text(s@) is Some,
        clean matches Some(text) ==> unstyled_text(s@) == Some(text@),
{
    replace_all(STYLE_SEQUENCE, s, "")
}

/// What is shown of a finished message besides the message itself.
pub struct Presentation {
    /// The message without terminal styling: what is committed.
    pub clean_message: String,
    /// The command line that records the clean message.
    pub git_command: String,
}

/// What is shown for a message whose unstyled text is `clean`.
pub fn present_clean(clean: String) -> (shown: Presentation)
    ensures
        shown.clean_message@ == clean@,
        shown.git_command@ == git_command_text(clean@),
{
    let git_command = generate_git_command(clean.as_str());
    Presentation { clean_message: clean, git_command }
}

/// What is shown for `commit_message` as it is displayed: its styling is
/// taken out before it is serialised.
pub fn present(commit_message: &str) -> (shown: Option<Presentation>)
    ensures
        shown is Some <==> unstyled_text(commit_message@) is Some,
        shown matches Some(made) ==> unstyled_text(commit_message@) == Some(made.clean_message@)
            && made.git_command@ == git_command_text(made.clean_message@),
{
    match remove_ansi_colors(commit_message) {
        Some(clean) => Some(present_clean(clean)),
        None => None,
    }
}

} // verus!
