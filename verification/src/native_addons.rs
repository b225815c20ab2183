//! The grammar of native addon staging.
use vstd::prelude::*;
use vstd::string::*;
use crate::arguments::{Argument, ArgumentError};
use crate::devices::word_is;
use crate::errors::RsiError;

verus! {

/// Help for the addon application, which installs nothing and starts no host.
pub const HELP: &'static str = "Native addons application (existing local Service Host):\n  rsi --profile addons refresh\n  rsi addon refresh\nPrints a staging receipt; existing Sessions keep their pinned generation.\n";

/// What is told where the result could not be written.
pub const NOT_DELIVERED: &'static str = "Native refresh result delivery failed; inspect native state before another explicit attempt";

/// An addon operation.
#[derive(Clone, Copy, Debug, PartialEq, Eq, Structural)]
pub enum Command {
    Refresh,
}

impl Command {
    pub fn parse(args: &Vec<Argument>) -> (r: Result<Command, ArgumentError>)
        ensures
            r == (if args@.len() == 1 && args@[0].is("refresh"@) {
                Ok(Command::Refresh)
            } else {
                Err(ArgumentError::Form)
            }),
    {
        if args.len() == 1 && word_is(args, 0, "refresh") {
            Ok(Command::Refresh)
        } else {
            Err(ArgumentError::Form)
        }
    }
}

/// Why the application does not start: whatever is wrong with its arguments, its help is told.
pub fn explain() -> (r: RsiError)
    ensures
        r matches RsiError::Boot(s) && s@ == HELP@,
{
    RsiError::Boot(HELP.to_owned())
}

} // verus!
