//! The call site: the place in the source where an extraction was written,
//! as the rewritten call hands it to the extension function.

use vstd::prelude::*;

verus! {

/// The file and the line of a call, held in a static that lives as long as
/// the process.
#[derive(Copy, Clone, Debug)]
pub struct CallSite(pub &'static (&'static str, u32));

/// The character for the decimal digit `d`.
pub open spec fn digit(d: nat) -> char {
    if d == 0 {
        '0'
    } else if d == 1 {
        '1'
    } else if d == 2 {
        '2'
    } else if d == 3 {
        '3'
    } else if d == 4 {
        '4'
    } else if d == 5 {
        '5'
    } else if d == 6 {
        '6'
    } else if d == 7 {
        '7'
    } else if d == 8 {
        '8'
    } else {
        '9'
    }
}

/// `n` in decimal digits, the most significant first, without leading
/// zeros.
pub open spec fn decimal(n: nat) -> Seq<char>
    decreases n,
{
    if n < 10 {
        seq![digit(n)]
    } else {
        decimal(n / 10).push(digit(n % 10))
    }
}

impl CallSite {
    /// The file of the call.
    pub open spec fn file(self) -> Seq<char> {
        (self.0).0@
    }

    /// The line of the call.
    pub open spec fn line(self) -> nat {
        (self.0).1 as nat
    }

    /// How a call site is shown: `call site: `, the file, a colon and the
    /// line.
    pub open spec fn shown(self) -> Seq<char> {
        "call site: "@ + self.file() + ":"@ + decimal(self.line())
    }

    /// The text that shows the call site.
    pub fn to_string(&self) -> (text: String)
        ensures
            text@ == self.shown(),
    {
        let mut text = String::from_str("call site: ");
        text.append((self.0).0);
        text.append(":");
        append_decimal(&mut text, (self.0).1);
        text
    }
}

/// The text of the decimal digit `d`.
fn digit_text(d: u32) -> (text: &'static str)
    requires
        d < 10,
    ensures
        text@ == seq![digit(d as nat)],
{
    proof {
        reveal_strlit("0");
        reveal_strlit("1");
        reveal_strlit("2");
        reveal_strlit("3");
        reveal_strlit("4");
        reveal_strlit("5");
        reveal_strlit("6");
        reveal_strlit("7");
        reveal_strlit("8");
        reveal_strlit("9");
    }
    let text = if d == 0 {
        "0"
    } else if d == 1 {
        "1"
    } else if d == 2 {
        "2"
    } else if d == 3 {
        "3"
    } else if d == 4 {
        "4"
    } else if d == 5 {
        "5"
    } else if d == 6 {
        "6"
    } else if d == 7 {
        "7"
    } else if d == 8 {
        "8"
    } else {
        "9"
    };
    text
}

/// Writes `n` in decimal digits at the end of `text`.
pub fn append_decimal(text: &mut String, n: u32)
    ensures
        final(text)@ == old(text)@ + decimal(n as nat),
    decreases n,
{
    if n >= 10 {
        append_decimal(text, n / 10);
    }
    text.append(digit_text(n % 10));
}

} // verus!
