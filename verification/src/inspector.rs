//! The grammar of operator inspection.
use vstd::prelude::*;
use vstd::string::*;
use crate::arguments::{Argument, ArgumentError};
use crate::devices;
use crate::devices::{first_opaque, word_is};
use crate::errors::RsiError;
use crate::number;
use crate::number::{decimal, parse_usize};
use crate::text::same;

verus! {

/// Help for the inspection application.
pub const HELP: &'static str = "Inspector application (existing local Service Host):\n  rsi --profile inspector runtime [AFTER_FIBER]\n  rsi --profile inspector profile [OFFSET]\n  rsi --profile inspector factories [OFFSET]\n  rsi --profile inspector native\nPrints one bounded JSON page; use its next_after or next_offset for another page.\n";

/// What is told where the result could not be written.
pub const NOT_DELIVERED: &'static str = "Inspector output delivery failed; repeat the read";

/// One bounded page to read.
#[derive(Clone, Copy, Debug, PartialEq, Eq, Structural)]
pub enum Command {
    /// Fibers, behind the one that the argument at this index names.
    Runtime(Option<usize>),
    /// Profile entries from this offset on.
    Profile(usize),
    /// Factories from this offset on.
    Factories(usize),
    Native,
}

/// The offset that a text names: a number as it would be written.
pub open spec fn offset_named(s: Seq<char>) -> Option<usize> {
    match number::parsed_within(s, usize::MAX as nat) {
        Some(n) => if number::digits(n) == s {
            Some(n as usize)
        } else {
            None
        },
        None => None,
    }
}

fn offset_value(s: &str) -> (r: Option<usize>)
    ensures
        r == offset_named(s@),
{
    match parse_usize(s) {
        Some(n) => if same(decimal(n as u64).as_str(), s) {
            Some(n)
        } else {
            None
        },
        None => None,
    }
}

impl Command {
    /// The offset of a page request: zero where none is given.
    pub open spec fn page_at(args: Seq<Argument>) -> Result<usize, ArgumentError> {
        if args.len() == 1 {
            Ok(0)
        } else {
            match offset_named(args[1].text->0@) {
                Some(offset) => if args[1].refused.offset {
                    Err(ArgumentError::Form)
                } else {
                    Ok(offset)
                },
                None => Err(ArgumentError::Form),
            }
        }
    }

    /// The whole grammar.
    pub open spec fn parsed(args: Seq<Argument>) -> Result<Command, ArgumentError> {
        if devices::any_opaque(args) {
            Err(ArgumentError::Form)
        } else if 1 <= args.len() <= 2 && args[0].is("runtime"@) {
            if args.len() == 1 {
                Ok(Command::Runtime(None))
            } else if args[1].refused.fiber {
                Err(ArgumentError::Form)
            } else {
                Ok(Command::Runtime(Some(1)))
            }
        } else if 1 <= args.len() <= 2 && args[0].is("profile"@) {
            match Command::page_at(args) {
                Ok(offset) => Ok(Command::Profile(offset)),
                Err(e) => Err(e),
            }
        } else if 1 <= args.len() <= 2 && args[0].is("factories"@) {
            match Command::page_at(args) {
                Ok(offset) => Ok(Command::Factories(offset)),
                Err(e) => Err(e),
            }
        } else if args.len() == 1 && args[0].is("native"@) {
            Ok(Command::Native)
        } else {
            Err(ArgumentError::Form)
        }
    }

    fn page(args: &Vec<Argument>) -> (r: Result<usize, ArgumentError>)
        requires
            1 <= args@.len() <= 2,
            args@.len() == 2 ==> args@[1].text is Some,
        ensures
            r == Command::page_at(args@),
    {
        if args.len() == 1 {
            return Ok(0);
        }
        match &args[1].text {
            Some(word) => match offset_value(word.as_str()) {
                Some(offset) => if args[1].refused.offset {
                    Err(ArgumentError::Form)
                } else {
                    Ok(offset)
                },
                None => Err(ArgumentError::Form),
            },
            None => Err(ArgumentError::Form),
        }
    }

    pub fn parse(args: &Vec<Argument>) -> (r: Result<Command, ArgumentError>)
        ensures
            r == Command::parsed(args@),
    {
        if let Some(i) = first_opaque(args) {
            proof {
                assert(args@[i as int].text is None);
            }
            return Err(ArgumentError::Form);
        }
        proof {
            assert(forall|j: int| 0 <= j < args@.len() ==> (#[trigger] args@[j]).text is Some);
        }
        let n: usize = args.len();
        if n < 1 || n > 2 {
            return Err(ArgumentError::Form);
        }
        if word_is(args, 0, "runtime") {
            if n == 1 {
                return Ok(Command::Runtime(None));
            }
            if args[1].refused.fiber {
                return Err(ArgumentError::Form);
            }
            return Ok(Command::Runtime(Some(1)));
        }
        if word_is(args, 0, "profile") {
            return match Command::page(args) {
                Ok(offset) => Ok(Command::Profile(offset)),
                Err(e) => Err(e),
            };
        }
        if word_is(args, 0, "factories") {
            return match Command::page(args) {
                Ok(offset) => Ok(Command::Factories(offset)),
                Err(e) => Err(e),
            };
        }
        if n == 1 && word_is(args, 0, "native") {
            return Ok(Command::Native);
        }
        Err(ArgumentError::Form)
    }
}

/// Why the application does not start: whatever is wrong with its arguments, its help is told.
pub fn explain() -> (r: RsiError)
    ensures
        r matches RsiError::Boot(s) && s@ == HELP@,
{
    RsiError::Boot(HELP.to_owned())
}

proof fn lemma_inspector_words()
    ensures
        "runtime"@ != "profile"@,
        "runtime"@ != "factories"@,
        "runtime"@ != "native"@,
        "profile"@ != "factories"@,
        "profile"@ != "native"@,
        "factories"@ != "native"@,
{
    reveal_strlit("runtime");
    reveal_strlit("profile");
    reveal_strlit("factories");
    reveal_strlit("native");
    assert("runtime"@[0] != "profile"@[0]);
    assert("runtime"@.len() != "factories"@.len());
    assert("runtime"@.len() != "native"@.len());
    assert("profile"@.len() != "factories"@.len());
    assert("profile"@.len() != "native"@.len());
    assert("factories"@.len() != "native"@.len());
}

/// The forms of the inspector: each word reads its own thing, from the start where nothing else is
/// named.
pub proof fn law_inspector_forms(args: Seq<Argument>)
    requires
        forall|i: int| 0 <= i < args.len() ==> (#[trigger] args[i]).text is Some,
    ensures
        ({
            let p = Command::parsed(args);
            let ok = |c: Command| p == Ok::<Command, ArgumentError>(c);
            &&& args.len() == 1 && args[0].is("runtime"@) ==> ok(Command::Runtime(None))
            &&& args.len() == 1 && args[0].is("profile"@) ==> ok(Command::Profile(0))
            &&& args.len() == 1 && args[0].is("factories"@) ==> ok(Command::Factories(0))
            &&& args.len() == 1 && args[0].is("native"@) ==> ok(Command::Native)
            &&& args.len() == 2 && args[0].is("runtime"@) && !args[1].refused.fiber ==> ok(
                Command::Runtime(Some(1)),
            )
            &&& args.len() == 2 && args[0].is("runtime"@) && args[1].refused.fiber ==> p is Err
            &&& args.len() == 2 && args[0].is("native"@) ==> p is Err
            &&& args.len() == 0 || args.len() > 2 ==> p is Err
        }),
{
    lemma_inspector_words();
}

/// A page is read from the offset that is named, a number as it would be written that its owner
/// accepts.
pub proof fn law_inspector_offsets(args: Seq<Argument>, n: nat)
    requires
        args.len() == 2,
        args[0].text is Some,
        args[1].is(number::digits(n)),
        n <= usize::MAX,
    ensures
        ({
            let p = Command::parsed(args);
            let ok = |c: Command| p == Ok::<Command, ArgumentError>(c);
            &&& args[0].is("profile"@) && !args[1].refused.offset ==> ok(
                Command::Profile(n as usize),
            )
            &&& args[0].is("factories"@) && !args[1].refused.offset ==> ok(
                Command::Factories(n as usize),
            )
            &&& (args[0].is("profile"@) || args[0].is("factories"@)) && args[1].refused.offset ==> p
                is Err
        }),
{
    lemma_inspector_words();
    number::law_decimal_round_trip(n);
    assert(!devices::any_opaque(args)) by {
        assert(args[0].text is Some && args[1].text is Some);
    }
}

} // verus!
