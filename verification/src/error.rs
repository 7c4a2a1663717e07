//! The ways in which a request for a modular power can fail.

use vstd::prelude::*;

verus! {

/// Why no result was produced.
#[derive(Clone, Copy, Debug, PartialEq, Eq, Structural)]
pub enum ModexpError {
    /// An operand is not a decimal `u64`, or the number of operands is not three.
    Parse,
    /// The modulus is zero, so no residue exists.
    InvalidModulus,
}

/// The one line shown to the user on any failure.
pub open spec fn usage_text() -> Seq<char> {
    "modexp: usage: modexp <x> <y> <m>"@
}

impl ModexpError {
    /// The text to show for this failure. Both failures share the usage line.
    pub fn message(&self) -> (text: String)
        ensures
            text@ == usage_text(),
    {
        "modexp: usage: modexp <x> <y> <m>".to_owned()
    }

    /// The process status that reports this failure: always 1.
    pub fn exit_code(&self) -> (code: i32)
        ensures
            code == 1,
    {
        1
    }
}

} // verus!
