//! The fixed names of the rewriting: the crate whose extension traits the
//! rewritten calls use, the annotation that switches the rewriting off, and
//! the members that are rewritten.

use vstd::prelude::*;

verus! {

/// The crate that holds the extension traits and the call-site type.
pub const CRATE_NAME: &'static str = "better_unwraps";

/// Items and expressions that carry this annotation keep their calls as
/// they are.
pub const LEAVE_UNWRAPS: &'static str = "leave_unwraps";

/// The type of a call site in [`CRATE_NAME`].
pub const CALL_SITE_TYPE: &'static str = "CallSite";

/// The name of the static that holds the file and the line of a call site.
pub const CALL_SITE_STATIC: &'static str = "CALL_SITE";

/// The path segment that stands for the scope itself.
pub const SAME_SCOPE: &'static str = "self";

/// The path segment that stands for the enclosing scope.
pub const PARENT_SCOPE: &'static str = "super";

/// The function and the trait that stand in for a member: `unwrap` becomes
/// `UnwrapExt::unwrap_ext`, `unwrap_err` becomes
/// `UnwrapErrExt::unwrap_err_ext`, and no other member has a replacement.
/// The pair holds the function first.
pub open spec fn extension_of(member: Seq<char>) -> Option<(Seq<char>, Seq<char>)> {
    if member == "unwrap"@ {
        Some(("unwrap_ext"@, "UnwrapExt"@))
    } else if member == "unwrap_err"@ {
        Some(("unwrap_err_ext"@, "UnwrapErrExt"@))
    } else {
        None
    }
}

/// Whether `text` reads `word`.
pub fn reads(text: &String, word: &str) -> (r: bool)
    ensures
        r == (text@ == word@),
{
    *text == String::from_str(word)
}

/// The replacement of `member`, the function first, if it has one.
pub fn extension_names(member: &String) -> (r: Option<(String, String)>)
    ensures
        match r {
            Some((function, capability)) => extension_of(member@) == Some(
                (function@, capability@),
            ),
            None => extension_of(member@) is None,
        },
{
    if reads(member, "unwrap") {
        Some((String::from_str("unwrap_ext"), String::from_str("UnwrapExt")))
    } else if reads(member, "unwrap_err") {
        Some((String::from_str("unwrap_err_ext"), String::from_str("UnwrapErrExt")))
    } else {
        None
    }
}

} // verus!
