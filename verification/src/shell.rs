//! Shell-like word splitting of a hook's action string: POSIX quoting
//! rules, no variable expansion, no globbing. The first word is the
//! command name; the rest are candidate arguments.

use vstd::prelude::*;

use crate::config::strs_view;

verus! {

/// The words an action string splits into under POSIX shell quoting
/// rules.
pub uninterp spec fn shell_words(s: Seq<char>) -> Seq<Seq<char>>;

/// Relies on shlex::Shlex: an iterator that splits its input into words
/// using POSIX shell quoting rules; the word sequence is a function of
/// the input string alone. On erroneous input (an unclosed quote, a
/// trailing backslash) the iterator simply ends after the words read so
/// far.
#[verifier::external_body]
fn shell_split(action: &str) -> (r: Vec<String>)
    ensures
        strs_view(r@) == shell_words(action@),
{
    shlex::Shlex::new(action).collect()
}

/// A tokenized action: the command name and the argument tokens, each of
/// which may later be recognized as a placeholder.
pub open spec fn spec_tokenize(s: Seq<char>) -> Option<(Seq<char>, Seq<Seq<char>>)> {
    let words = shell_words(s);
    if words.len() == 0 {
        None
    } else {
        Some((words[0], words.skip(1)))
    }
}

/// Splits an action string into the command name and its argument
/// tokens; `None` when the string holds no word at all.
pub fn tokenize(action: &str) -> (r: Option<(String, Vec<String>)>)
    ensures
        match r {
            Some(cv) => spec_tokenize(action@) == Some((cv.0@, strs_view(cv.1@))),
            None => spec_tokenize(action@) is None,
        },
{
    let mut words = shell_split(action);
    if words.len() == 0 {
        None
    } else {
        let ghost all = strs_view(words@);
        let cmd = words.remove(0);
        proof {
            assert(strs_view(words@) =~= all.skip(1));
        }
        Some((cmd, words))
    }
}

} // verus!
