//! ANSI SGR escape sequences for 256-color terminals, built at run time.
//!
//! See <https://en.wikipedia.org/wiki/ANSI_escape_code> for the encoding.

use crate::text::dec_digits;
use crate::text::usize_to_string;
use vstd::prelude::*;
use vstd::string::StringExecFns;

verus! {

/// The sequence that resets all terminal attributes.
pub fn ansi_reset() -> (r: &'static str)
    ensures
        r@ == "\x1b[m"@,
{
    "\x1b[m"
}

/// The sequence that selects foreground color `n` from 256-color mode.
pub fn ansi_fg(n: u8) -> (r: String)
    ensures
        r@ == "\x1b[38;5;"@ + dec_digits(n as nat) + "m"@,
{
    let mut s = String::from_str("\x1b[38;5;");
    let digits = usize_to_string(n as usize);
    s.append(digits.as_str());
    s.append("m");
    proof {
        assert(s@ =~= "\x1b[38;5;"@ + dec_digits(n as nat) + "m"@);
    }
    s
}

/// The sequence that selects background color `n` from 256-color mode.
pub fn ansi_bg(n: u8) -> (r: String)
    ensures
        r@ == "\x1b[48;5;"@ + dec_digits(n as nat) + "m"@,
{
    let mut s = String::from_str("\x1b[48;5;");
    let digits = usize_to_string(n as usize);
    s.append(digits.as_str());
    s.append("m");
    proof {
        assert(s@ =~= "\x1b[48;5;"@ + dec_digits(n as nat) + "m"@);
    }
    s
}

/// The sequence that selects both a background and a foreground color.
pub fn ansi_fg_bg(fg: u8, bg: u8) -> (r: String)
    ensures
        r@ == "\x1b[48;5;"@ + dec_digits(bg as nat) + ";38;5;"@ + dec_digits(fg as nat) + "m"@,
{
    let mut s = String::from_str("\x1b[48;5;");
    let bg_digits = usize_to_string(bg as usize);
    s.append(bg_digits.as_str());
    s.append(";38;5;");
    let fg_digits = usize_to_string(fg as usize);
    s.append(fg_digits.as_str());
    s.append("m");
    proof {
        assert(s@ =~= "\x1b[48;5;"@ + dec_digits(bg as nat) + ";38;5;"@ + dec_digits(fg as nat)
            + "m"@);
    }
    s
}

} // verus!
