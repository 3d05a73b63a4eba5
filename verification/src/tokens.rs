//! The placeholder vocabulary of action strings: tokens that are replaced
//! by computed data (file lists, the repository root) before a hook's
//! command is invoked. The singular variants are reserved: they would
//! demand a process-per-file execution mode that was never built, so
//! meeting one fails the hook rather than being silently ignored.

use vstd::prelude::*;

verus! {

/// One recognized placeholder of an action string.
#[derive(Copy, Clone, Debug, PartialEq, Eq, Structural)]
pub enum ActionFileToken {
    Files,
    File,
    ChangedFiles,
    ChangedFile,
    Root,
}

/// The placeholder a token spells, if any; every other token is a
/// literal argument.
pub open spec fn spec_token_from_str(s: Seq<char>) -> Option<ActionFileToken> {
    if s == "{file}"@ {
        Some(ActionFileToken::File)
    } else if s == "{files}"@ {
        Some(ActionFileToken::Files)
    } else if s == "{changed_files}"@ {
        Some(ActionFileToken::ChangedFiles)
    } else if s == "{changed_file}"@ {
        Some(ActionFileToken::ChangedFile)
    } else if s == "{root}"@ {
        Some(ActionFileToken::Root)
    } else {
        None
    }
}

impl ActionFileToken {
    /// Returns the variant a textual token spells, `None` for a literal.
    pub fn from_str(token: &str) -> (r: Option<ActionFileToken>)
        ensures
            r == spec_token_from_str(token@),
    {
        let t = token.to_owned();
        if t == "{file}".to_owned() {
            Some(ActionFileToken::File)
        } else if t == "{files}".to_owned() {
            Some(ActionFileToken::Files)
        } else if t == "{changed_files}".to_owned() {
            Some(ActionFileToken::ChangedFiles)
        } else if t == "{changed_file}".to_owned() {
            Some(ActionFileToken::ChangedFile)
        } else if t == "{root}".to_owned() {
            Some(ActionFileToken::Root)
        } else {
            None
        }
    }
}

} // verus!
