//! The rules of the command line: which argument lists are accepted and
//! what is computed from them.

use crate::engine::{modexp, modexp_spec};
use crate::error::ModexpError;
use crate::parse::{parse_spec, parsenum};
use vstd::prelude::*;

verus! {

/// The texts of an argument list, in order.
pub open spec fn texts(args: Seq<String>) -> Seq<Seq<char>> {
    args.map_values(|arg: String| arg@)
}

/// What `run` answers on each argument list. The list holds the program's
/// name and then exactly three operands: base, exponent and modulus. A list
/// of any other length, or an operand that is not a decimal `u64`, is a
/// parse failure; three good operands give what `modexp` gives on them.
pub open spec fn run_spec(args: Seq<Seq<char>>) -> Result<u64, ModexpError> {
    if args.len() != 4 {
        Err(ModexpError::Parse)
    } else {
        match (parse_spec(args[1]), parse_spec(args[2]), parse_spec(args[3])) {
            (Ok(x), Ok(y), Ok(m)) => modexp_spec(x, y, m),
            _ => Err(ModexpError::Parse),
        }
    }
}

/// Evaluates a whole argument list, the program's name first.
pub fn run(args: &Vec<String>) -> (result: Result<u64, ModexpError>)
    ensures
        result == run_spec(texts(args@)),
{
    if args.len() != 4 {
        return Err(ModexpError::Parse);
    }
    let x = match parsenum(args[1].as_str()) {
        Ok(value) => value,
        Err(_) => {
            return Err(ModexpError::Parse);
        },
    };
    let y = match parsenum(args[2].as_str()) {
        Ok(value) => value,
        Err(_) => {
            return Err(ModexpError::Parse);
        },
    };
    let m = match parsenum(args[3].as_str()) {
        Ok(value) => value,
        Err(_) => {
            return Err(ModexpError::Parse);
        },
    };
    modexp(x, y, m)
}

} // verus!
