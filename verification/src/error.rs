//! Why a rewriting stops. Every failure ends the whole invocation: nothing
//! is returned of a tree that could not be rewritten to the end.

use vstd::prelude::*;

verus! {

/// The reason for which an invocation was given up.
#[derive(Clone, Copy, Debug, PartialEq, Eq)]
pub enum RewriteError {
    /// The invocation mode is none of the recognized ones. This is found
    /// before anything is visited.
    UnsupportedInvocation,
    /// A named scope has its body in another file, where the rewriting
    /// cannot follow.
    ScopeWithoutBody,
    /// A member call that is to be rewritten has no receiver to hand on.
    MissingReceiver,
    /// Named scopes are nested more deeply than a depth can count.
    NestingTooDeep,
}

} // verus!
