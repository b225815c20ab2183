//! Answers of the operator's commands, written out as they are.
use vstd::prelude::*;
use vstd::string::*;
use crate::text::cat2;

verus! {

/// What is written of an answer: its bytes, and the end of the line.
pub fn framed(bytes: &Vec<u8>) -> (r: Vec<u8>)
    ensures
        r@ == bytes@.push(10),
{
    let mut r: Vec<u8> = Vec::new();
    r.extend_from_slice(bytes.as_slice());
    r.push(10);
    proof {
        assert(r@ =~= bytes@.push(10));
    }
    r
}

/// What came of a command.
#[derive(Debug)]
pub enum Delivered {
    Written,
    /// The program was stopped before the answer came.
    Stopped,
    /// The command failed, as is told.
    Failed(String),
    /// The answer could not be written.
    NotWritten,
}

/// What the program ends with, and what it tells. `unknown` is what is told of a command that was
/// stopped, and `delivery` of an answer that could not be written.
pub fn ending(d: &Delivered, unknown: &str, delivery: &str) -> (r: (u8, Option<String>))
    ensures
        r.0 == (if *d is Written {
            0u8
        } else {
            1u8
        }),
        match d {
            Delivered::Written => r.1 is None,
            Delivered::Stopped => r.1 matches Some(s) && s@ == "error: "@ + unknown@,
            Delivered::Failed(e) => r.1 matches Some(s) && s@ == "error: "@ + e@,
            Delivered::NotWritten => r.1 matches Some(s) && s@ == "error: "@ + delivery@,
        },
{
    match d {
        Delivered::Written => (0, None),
        Delivered::Stopped => (1, Some(cat2("error: ", unknown))),
        Delivered::Failed(e) => (1, Some(cat2("error: ", e.as_str()))),
        Delivered::NotWritten => (1, Some(cat2("error: ", delivery))),
    }
}

} // verus!
