//! The grammar of device administration.
use vstd::prelude::*;
use vstd::string::*;
use crate::arguments::{Argument, ArgumentError, Kind};
use crate::errors::RsiError;
use crate::number;
use crate::number::{decimal, parse_within};
use crate::text::same;

verus! {

/// Help for the device administration application, which needs no session.
pub const HELP: &'static str = "Devices application:\n  rsi --profile devices register LABEL\n  rsi --profile devices list\n  rsi --profile devices revoke DEVICE_ID\n  rsi --profile devices configuration list\n  rsi --profile devices configuration grant DEVICE_ID REVISION\n  rsi --profile devices configuration revoke DEVICE_ID REVISION\nRegistration prints its one-time token and grants no configuration authority.\nConfiguration changes require the revision from configuration list and execute once.\nList outputs contain only non-secret records.\n";

/// What is told where the result could not be written.
pub const NOT_DELIVERED: &'static str = "device output delivery failed; reconcile with list";

/// A device operation. Numbers are indices of arguments.
#[derive(Clone, Copy, Debug, PartialEq, Eq, Structural)]
pub enum Command {
    Register(usize),
    List,
    Revoke(usize),
    ConfigurationList,
    ConfigurationChange { id: usize, revision: usize, granted: bool },
}

/// A decimal number as it would be written, that fits into 64 bits.
pub open spec fn canonical(s: Seq<char>) -> bool {
    exists|n: nat| n <= u64::MAX && #[trigger] number::digits(n) == s
}


/// Whether a text is a canonical 64-bit number.
pub fn is_canonical(s: &str) -> (r: bool)
    ensures
        r == canonical(s@),
{
    match parse_within(s, u64::MAX) {
        Some(n) => {
            let r: bool = same(decimal(n).as_str(), s);
            proof {
                if canonical(s@) {
                    let m = choose|m: nat| m <= u64::MAX && #[trigger] number::digits(m) == s@;
                    number::law_decimal_round_trip(m);
                }
            }
            r
        },
        None => {
            proof {
                if canonical(s@) {
                    let m = choose|m: nat| m <= u64::MAX && #[trigger] number::digits(m) == s@;
                    number::law_decimal_round_trip(m);
                }
            }
            false
        },
    }
}

/// Whether any argument is not UTF-8.
pub open spec fn any_opaque(args: Seq<Argument>) -> bool {
    exists|i: int| 0 <= i < args.len() && (#[trigger] args[i]).text is None
}

/// The first argument that is not UTF-8.
pub(crate) fn first_opaque(args: &Vec<Argument>) -> (r: Option<usize>)
    ensures
        match r {
            Some(i) => i < args@.len() && args@[i as int].text is None && (forall|j: int|
                0 <= j < i ==> (#[trigger] args@[j]).text is Some),
            None => !any_opaque(args@),
        },
{
    let mut i: usize = 0;
    while i < args.len()
        invariant
            i <= args@.len(),
            forall|j: int| 0 <= j < i ==> (#[trigger] args@[j]).text is Some,
        decreases args@.len() - i,
    {
        if args[i].text.is_none() {
            return Some(i);
        }
        i += 1;
    }
    None
}

/// Whether the argument at an index is a word.
pub(crate) fn word_is(args: &Vec<Argument>, i: usize, word: &str) -> (r: bool)
    requires
        i < args@.len(),
    ensures
        r == args@[i as int].is(word@),
{
    match &args[i].text {
        Some(t) => same(t.as_str(), word),
        None => false,
    }
}

impl Command {
    /// The whole grammar. Where an argument is not UTF-8 the first such argument is named.
    pub open spec fn parsed(args: Seq<Argument>) -> Result<Command, ArgumentError> {
        if args.len() == 2 && args[0].is("configuration"@) && args[1].is("list"@) {
            Ok(Command::ConfigurationList)
        } else if args.len() == 4 && args[0].is("configuration"@) && (args[1].is("grant"@)
            || args[1].is("revoke"@)) {
            if !canonical(args[3].text->0@) {
                Err(ArgumentError::Revision)
            } else if args[2].refused.device {
                Err(ArgumentError::Refused(Kind::Device, 2))
            } else {
                Ok(
                    Command::ConfigurationChange {
                        id: 2,
                        revision: 3,
                        granted: args[1].is("grant"@),
                    },
                )
            }
        } else if args.len() == 1 && args[0].is("list"@) {
            Ok(Command::List)
        } else if args.len() == 2 && args[0].is("register"@) {
            if args[1].refused.label {
                Err(ArgumentError::Refused(Kind::Label, 1))
            } else {
                Ok(Command::Register(1))
            }
        } else if args.len() == 2 && args[0].is("revoke"@) {
            if args[1].refused.device {
                Err(ArgumentError::Refused(Kind::Device, 1))
            } else {
                Ok(Command::Revoke(1))
            }
        } else {
            Err(ArgumentError::Form)
        }
    }

    pub fn parse(args: &Vec<Argument>) -> (r: Result<Command, ArgumentError>)
        ensures
            any_opaque(args@) ==> (r matches Err(ArgumentError::NotUtf8(i)) && i < args@.len()
                && args@[i as int].text is None && forall|j: int|
                0 <= j < i ==> (#[trigger] args@[j]).text is Some),
            !any_opaque(args@) ==> r == Command::parsed(args@),
    {
        if let Some(i) = first_opaque(args) {
            return Err(ArgumentError::NotUtf8(i));
        }
        proof {
            assert(forall|j: int| 0 <= j < args@.len() ==> (#[trigger] args@[j]).text is Some);
        }
        let n: usize = args.len();
        if n == 2 && word_is(args, 0, "configuration") && word_is(args, 1, "list") {
            return Ok(Command::ConfigurationList);
        }
        if n == 4 && word_is(args, 0, "configuration") && (word_is(args, 1, "grant") || word_is(
            args,
            1,
            "revoke",
        )) {
            let canonical: bool = match &args[3].text {
                Some(revision) => is_canonical(revision.as_str()),
                None => false,
            };
            if !canonical {
                return Err(ArgumentError::Revision);
            }
            if args[2].refused.device {
                return Err(ArgumentError::Refused(Kind::Device, 2));
            }
            return Ok(
                Command::ConfigurationChange {
                    id: 2,
                    revision: 3,
                    granted: word_is(args, 1, "grant"),
                },
            );
        }
        if n == 1 && word_is(args, 0, "list") {
            return Ok(Command::List);
        }
        if n == 2 && word_is(args, 0, "register") {
            if args[1].refused.label {
                return Err(ArgumentError::Refused(Kind::Label, 1));
            }
            return Ok(Command::Register(1));
        }
        if n == 2 && word_is(args, 0, "revoke") {
            if args[1].refused.device {
                return Err(ArgumentError::Refused(Kind::Device, 1));
            }
            return Ok(Command::Revoke(1));
        }
        Err(ArgumentError::Form)
    }
}

/// What is told of arguments that are not understood.
pub open spec fn explained(e: ArgumentError, detail: Seq<char>) -> Seq<char> {
    match e {
        ArgumentError::NotUtf8(_) => "device arguments must be UTF-8"@,
        ArgumentError::Revision => "configuration revision must be a canonical u64 decimal from configuration list"@,
        ArgumentError::Refused(_, _) => detail,
        _ => HELP@,
    }
}

/// Why the application does not start. What an owner says of a value that it refuses goes in
/// `detail`.
pub fn explain(e: &ArgumentError, detail: &str) -> (r: RsiError)
    ensures
        r matches RsiError::Boot(s) && s@ == explained(*e, detail@),
{
    RsiError::Boot(
        match e {
            ArgumentError::NotUtf8(_) => "device arguments must be UTF-8".to_owned(),
            ArgumentError::Revision => "configuration revision must be a canonical u64 decimal from configuration list".to_owned(),
            ArgumentError::Refused(_, _) => detail.to_owned(),
            _ => HELP.to_owned(),
        },
    )
}

proof fn lemma_device_words()
    ensures
        "configuration"@ != "list"@,
        "configuration"@ != "grant"@,
        "configuration"@ != "revoke"@,
        "configuration"@ != "register"@,
        "list"@ != "grant"@,
        "list"@ != "revoke"@,
        "list"@ != "register"@,
        "grant"@ != "revoke"@,
        "grant"@ != "register"@,
        "revoke"@ != "register"@,
{
    reveal_strlit("configuration");
    reveal_strlit("list");
    reveal_strlit("grant");
    reveal_strlit("revoke");
    reveal_strlit("register");
    assert("configuration"@.len() != "list"@.len());
    assert("configuration"@.len() != "grant"@.len());
    assert("configuration"@.len() != "revoke"@.len());
    assert("configuration"@.len() != "register"@.len());
    assert("list"@.len() != "grant"@.len());
    assert("list"@.len() != "revoke"@.len());
    assert("list"@.len() != "register"@.len());
    assert("grant"@.len() != "revoke"@.len());
    assert("grant"@.len() != "register"@.len());
    assert("revoke"@.len() != "register"@.len());
}

/// The forms of the devices application: each does its own thing to the argument that it names, and
/// what its owner refuses is refused.
pub proof fn law_device_forms(args: Seq<Argument>)
    ensures
        ({
            let p = Command::parsed(args);
            let ok = |c: Command| p == Ok::<Command, ArgumentError>(c);
            let refused = |e: ArgumentError| p == Err::<Command, ArgumentError>(e);
            &&& args.len() == 1 && args[0].is("list"@) ==> ok(Command::List)
            &&& args.len() == 2 && args[0].is("register"@) && !args[1].refused.label ==> ok(
                Command::Register(1),
            )
            &&& args.len() == 2 && args[0].is("register"@) && args[1].refused.label ==> refused(
                ArgumentError::Refused(Kind::Label, 1),
            )
            &&& args.len() == 2 && args[0].is("revoke"@) && !args[1].refused.device ==> ok(
                Command::Revoke(1),
            )
            &&& args.len() == 2 && args[0].is("revoke"@) && args[1].refused.device ==> refused(
                ArgumentError::Refused(Kind::Device, 1),
            )
            &&& args.len() == 2 && args[0].is("configuration"@) && args[1].is("list"@) ==> ok(
                Command::ConfigurationList,
            )
            &&& args.len() == 0 || args.len() == 3 || args.len() > 4 ==> refused(ArgumentError::Form)
        }),
{
    lemma_device_words();
}

/// The configuration of a device is granted by `grant` and taken back by `revoke`, for the device and
/// at the revision that are named, where the revision is a number as it would be written.
pub proof fn law_configuration_change(args: Seq<Argument>)
    requires
        args.len() == 4,
        args[0].is("configuration"@),
        args[3].text is Some,
    ensures
        ({
            let p = Command::parsed(args);
            let change = |granted: bool|
                p == Ok::<Command, ArgumentError>(
                    Command::ConfigurationChange { id: 2, revision: 3, granted },
                );
            let sound = canonical(args[3].text->0@) && !args[2].refused.device;
            &&& args[1].is("grant"@) && sound ==> change(true)
            &&& args[1].is("revoke"@) && sound ==> change(false)
            &&& !args[1].is("grant"@) && !args[1].is("revoke"@) ==> p is Err
            &&& !sound ==> p is Err
            &&& change(true) ==> args[1].is("grant"@)
        }),
{
    lemma_device_words();
}

/// A revision is written without leading zeros, spaces or signs.
pub proof fn law_canonical(n: nat)
    requires
        n <= u64::MAX,
    ensures
        canonical(number::digits(n)),
        !canonical(seq![]),
        !canonical(seq!['0'] + number::digits(n)),
        !canonical(seq!['+'] + number::digits(n)),
{
    assert(canonical(number::digits(n)));
    if canonical(seq![]) {
        let m = choose|m: nat| m <= u64::MAX && #[trigger] number::digits(m) == Seq::<char>::empty();
        number::law_digits(m, 0);
    }
    let zero = seq!['0'] + number::digits(n);
    number::law_digits(n, 0);
    if canonical(zero) {
        let m = choose|m: nat| m <= u64::MAX && #[trigger] number::digits(m) == zero;
        number::law_digits(m, 0);
        assert(zero[0] == '0');
        if m == 0 {
            number::law_digits(0, 0);
            assert(number::digits(0).len() == 1);
        }
    }
    let plus = seq!['+'] + number::digits(n);
    if canonical(plus) {
        let m = choose|m: nat| m <= u64::MAX && #[trigger] number::digits(m) == plus;
        lemma_first_digit(m);
        assert(plus[0] == '+');
    }
}

proof fn lemma_first_digit(n: nat)
    ensures
        number::digits(n).len() > 0,
        number::is_digit(number::digits(n)[0]),
    decreases n,
{
    if n >= 10 {
        lemma_first_digit(n / 10);
    } else {
        number::law_digits(0, n);
    }
}

/// What is told of arguments that are not understood: what the owner says of what it refuses, and the
/// help where the form is unknown.
pub proof fn law_devices_explained(kind: Kind, i: usize, detail: Seq<char>)
    ensures
        explained(ArgumentError::Refused(kind, i), detail) == detail,
        explained(ArgumentError::NotUtf8(i), detail) == "device arguments must be UTF-8"@,
        explained(ArgumentError::Form, detail) == HELP@,
{
}

} // verus!
