//! Loss-free rendering of big decimal numerals.
//!
//! On-chain values are 256-bit integers; once decoded they travel as
//! decimal digit strings and are printed as-is.  This wrapper only
//! carries such a string to the output; it offers no arithmetic, so
//! no value can ever be rounded through a narrower numeric type.

use vstd::prelude::*;
use vstd::string::*;

verus! {

/// A number that is only ever printed: a borrowed decimal numeral.
#[derive(PartialEq, Eq)]
pub struct PrintedNum<'a>(pub &'a str);

impl<'a> PrintedNum<'a> {
    /// The numeral zero.
    pub fn zero() -> (r: PrintedNum<'static>)
        ensures
            r.0@ == "0"@,
    {
        PrintedNum("0")
    }

    /// The numeral one.
    pub fn one() -> (r: PrintedNum<'static>)
        ensures
            r.0@ == "1"@,
    {
        PrintedNum("1")
    }

    /// Whether the numeral is exactly "0".
    pub fn is_zero(&self) -> (r: bool)
        ensures
            r == (self.0@ == "0"@),
    {
        proof {
            reveal_strlit("0");
        }
        let n = self.0.unicode_len();
        if n != 1 {
            proof {
                assert(self.0@ != "0"@);
            }
            return false;
        }
        let c = self.0.get_char(0);
        if c == '0' {
            proof {
                assert(self.0@ =~= "0"@);
            }
            true
        } else {
            proof {
                assert(self.0@ != "0"@);
            }
            false
        }
    }

    /// The numeral itself, for the exposition layer to print as-is.
    pub fn as_str(&self) -> (r: &'a str)
        ensures
            r@ == self.0@,
    {
        self.0
    }
}

} // verus!
