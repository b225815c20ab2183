//! Why a client ends early.
use vstd::prelude::*;
use vstd::string::*;

verus! {

/// Why a client ends early.
#[derive(Debug)]
pub enum RsiError {
    /// It was started in a way that it does not know, or what it needs could not be started.
    Boot(String),
    /// Something failed while it ran.
    Run(String),
}

/// A failure while the client runs.
pub fn error(message: &str) -> (r: RsiError)
    ensures
        r matches RsiError::Run(s) && s@ == message@,
{
    RsiError::Run(message.to_owned())
}

/// A failure of the renderer.
pub fn failure(message: &str) -> (r: RsiError)
    ensures
        r matches RsiError::Run(s) && s@ == message@,
{
    error(message)
}

/// A failure of a conversation.
pub fn session_error(message: &str) -> (r: RsiError)
    ensures
        r matches RsiError::Run(s) && s@ == message@,
{
    error(message)
}

/// The first failure of two things that were both done.
pub fn first(a: Result<(), RsiError>, b: Result<(), RsiError>) -> (r: Result<(), RsiError>)
    ensures
        r == (match a {
            Err(e) => Result::<(), RsiError>::Err(e),
            Ok(_) => b,
        }),
{
    match a {
        Err(e) => Err(e),
        Ok(_) => b,
    }
}

} // verus!
