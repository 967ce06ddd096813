//! The extension traits that the rewritten calls use: extractions that are
//! told where they were written. An extraction returns what the value
//! holds; where the value holds nothing to return, the caller has a message
//! to abort with, which names the call site.

use crate::call_site::CallSite;
use vstd::prelude::*;

verus! {

/// The extraction of the success payload.
pub trait UnwrapExt {
    type Unwrapped;

    /// The payload that the extraction returns, if `self` holds one.
    spec fn held(self) -> Option<Self::Unwrapped>;

    /// Returns the payload of `self`. The call site is where the caller
    /// wrote the extraction.
    fn unwrap_ext(self, call_site: CallSite) -> (value: Self::Unwrapped)
        requires
            self.held() is Some,
        ensures
            self.held() == Some(value),
    ;
}

/// The extraction of the failure payload.
pub trait UnwrapErrExt {
    type Unwrapped;

    /// The failure that the extraction returns, if `self` holds one.
    spec fn held_err(self) -> Option<Self::Unwrapped>;

    /// Returns the failure that `self` holds. The call site is where the
    /// caller wrote the extraction.
    fn unwrap_err_ext(self, call_site: CallSite) -> (value: Self::Unwrapped)
        requires
            self.held_err() is Some,
        ensures
            self.held_err() == Some(value),
    ;
}

impl<T> UnwrapExt for Option<T> {
    type Unwrapped = T;

    open spec fn held(self) -> Option<T> {
        self
    }

    fn unwrap_ext(self, call_site: CallSite) -> (value: T) {
        match self {
            Some(val) => val,
            None => vstd::pervasive::unreached(),
        }
    }
}

impl<T, E> UnwrapExt for Result<T, E> where E: core::fmt::Display {
    type Unwrapped = T;

    open spec fn held(self) -> Option<T> {
        match self {
            Ok(val) => Some(val),
            Err(_) => None,
        }
    }

    fn unwrap_ext(self, call_site: CallSite) -> (value: T) {
        match self {
            Ok(val) => val,
            Err(_) => vstd::pervasive::unreached(),
        }
    }
}

impl<T, E> UnwrapErrExt for Result<T, E> where T: core::fmt::Display {
    type Unwrapped = E;

    open spec fn held_err(self) -> Option<E> {
        match self {
            Ok(_) => None,
            Err(e) => Some(e),
        }
    }

    fn unwrap_err_ext(self, call_site: CallSite) -> (value: E) {
        match self {
            Ok(_) => vstd::pervasive::unreached(),
            Err(e) => e,
        }
    }
}

/// What is said of an `Option` without a payload at `call_site`.
pub open spec fn none_report(call_site: CallSite) -> Seq<char> {
    "("@ + call_site.shown() + ") called `Option::unwrap_ext()` on a `None` value"@
}

/// What is said of a `Result` that holds the failure shown as `failure`,
/// where its success payload was asked for at `call_site`.
pub open spec fn err_report(call_site: CallSite, failure: Seq<char>) -> Seq<char> {
    "("@ + call_site.shown() + ") called `Result::unwrap_ext()` on an `Err` value: "@ + failure
}

/// What is said of a `Result` that holds the payload shown as `payload`,
/// where its failure was asked for at `call_site`.
pub open spec fn ok_report(call_site: CallSite, payload: Seq<char>) -> Seq<char> {
    "("@ + call_site.shown() + ") called `Result::unwrap_err_ext()` on an `Ok` value: "@
        + payload
}

/// The message for an `Option` without a payload.
pub fn none_message(call_site: CallSite) -> (message: String)
    ensures
        message@ == none_report(call_site),
{
    let mut message = String::from_str("(");
    message.append(call_site.to_string().as_str());
    message.append(") called `Option::unwrap_ext()` on a `None` value");
    message
}

/// The message for a `Result` that holds a failure where the success
/// payload was asked for. `failure` is how the failure is shown.
pub fn err_message(call_site: CallSite, failure: &str) -> (message: String)
    ensures
        message@ == err_report(call_site, failure@),
{
    let mut message = String::from_str("(");
    message.append(call_site.to_string().as_str());
    message.append(") called `Result::unwrap_ext()` on an `Err` value: ");
    message.append(failure);
    message
}

/// The message for a `Result` that holds a payload where the failure was
/// asked for. `payload` is how the payload is shown.
pub fn ok_message(call_site: CallSite, payload: &str) -> (message: String)
    ensures
        message@ == ok_report(call_site, payload@),
{
    let mut message = String::from_str("(");
    message.append(call_site.to_string().as_str());
    message.append(") called `Result::unwrap_err_ext()` on an `Ok` value: ");
    message.append(payload);
    message
}

} // verus!
