//! The invocation mode.

use crate::error::RewriteError;
use vstd::prelude::*;

verus! {

/// What an invocation does besides rewriting the calls.
#[derive(Clone, Copy, Debug, PartialEq, Eq)]
pub enum Mode {
    /// Nothing: the calls are rewritten and no declaration is added.
    Plain,
    /// The declaration of the crate of the extension traits is added to the
    /// first scope that lacks it.
    Inject,
}

/// The mode that `text` names: `plain` or `inject`, and nothing else.
pub open spec fn mode_of(text: Seq<char>) -> Result<Mode, RewriteError> {
    if text == "plain"@ {
        Ok(Mode::Plain)
    } else if text == "inject"@ {
        Ok(Mode::Inject)
    } else {
        Err(RewriteError::UnsupportedInvocation)
    }
}

/// Reads the invocation mode from its name.
pub fn parse_mode(text: &str) -> (r: Result<Mode, RewriteError>)
    ensures
        r == mode_of(text@),
{
    let given = String::from_str(text);
    if given == String::from_str("plain") {
        Ok(Mode::Plain)
    } else if given == String::from_str("inject") {
        Ok(Mode::Inject)
    } else {
        Err(RewriteError::UnsupportedInvocation)
    }
}

} // verus!
