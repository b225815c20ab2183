//! Decimal and hexadecimal numbers in text.
use vstd::prelude::*;
use vstd::string::*;
use crate::text::characters;


verus! {

/// The character of a digit below ten.
pub open spec fn digit(n: nat) -> char
    recommends
        n < 10,
{
    ('0' as u32 + n) as char
}

/// The decimal digits of a number, without leading zeros.
pub open spec fn digits(n: nat) -> Seq<char>
    decreases n,
{
    if n < 10 {
        seq![digit(n)]
    } else {
        digits(n / 10).push(digit(n % 10))
    }
}

/// Writes a number in decimal.
pub fn decimal(n: u64) -> (s: String)
    ensures
        s@ == digits(n as nat),
    decreases n,
{
    let mut s = if n < 10 {
        String::new()
    } else {
        decimal(n / 10)
    };
    let c: char = (48u8 + (n % 10) as u8) as char;
    s.push(c);
    proof {
        assert(c == digit((n % 10) as nat));
        if n < 10 {
            assert(s@ =~= seq![digit(n as nat)]);
        }
    }
    s
}

/// Whether a character is an ASCII decimal digit.
pub open spec fn is_digit(c: char) -> bool {
    '0' <= c <= '9'
}

/// The number that a run of decimal digits stands for.
pub open spec fn value(s: Seq<char>) -> nat
    decreases s.len(),
{
    if s.len() == 0 {
        0
    } else {
        10 * value(s.drop_last()) + (s.last() as u32 - '0' as u32) as nat
    }
}

/// Whether a text is a nonempty run of decimal digits.
pub open spec fn numeric(s: Seq<char>) -> bool {
    s.len() > 0 && (forall|i: int| 0 <= i < s.len() ==> is_digit(#[trigger] s[i]))
}

/// A text without its leading plus sign, if it has one.
pub open spec fn unsigned(s: Seq<char>) -> Seq<char> {
    if s.len() > 0 && s[0] == '+' {
        s.drop_first()
    } else {
        s
    }
}

/// Reads an unsigned number as `str::parse` does: digits with at most one leading plus sign.
pub open spec fn parsed(s: Seq<char>) -> Option<nat> {
    if numeric(unsigned(s)) {
        Some(value(unsigned(s)))
    } else {
        None
    }
}

/// The number a text stands for, if it is one and does not exceed `maximum`.
pub open spec fn parsed_within(s: Seq<char>, maximum: nat) -> Option<nat> {
    match parsed(s) {
        Some(n) => if n <= maximum {
            Some(n)
        } else {
            None
        },
        None => None,
    }
}

proof fn lemma_value_take(s: Seq<char>, i: int)
    requires
        0 <= i < s.len(),
    ensures
        value(s.take(i + 1)) == 10 * value(s.take(i)) + (s[i] as u32 - '0' as u32) as nat,
{
    assert(s.take(i + 1).drop_last() =~= s.take(i));
}

proof fn lemma_value_grows(s: Seq<char>, i: int)
    requires
        0 <= i <= s.len(),
    ensures
        value(s.take(i)) <= value(s),
    decreases s.len() - i,
{
    if i == s.len() {
        assert(s.take(i) =~= s);
    } else {
        lemma_value_take(s, i);
        lemma_value_grows(s, i + 1);
    }
}

/// Reads a number that does not exceed `maximum`.
pub fn parse_within(text: &str, maximum: u64) -> (r: Option<u64>)
    ensures
        match r {
            Some(n) => parsed_within(text@, maximum as nat) == Some(n as nat),
            None => parsed_within(text@, maximum as nat) is None,
        },
{
    let v = characters(text);
    let n: usize = v.len();
    let from: usize = if n > 0 && v[0] == '+' {
        1
    } else {
        0
    };
    let ghost body = text@.skip(from as int);
    proof {
        assert(text@.skip(0) =~= text@);
        assert(from == 1 ==> text@.drop_first() =~= body);
        assert(body == unsigned(text@));
    }
    if n == from {
        return None;
    }
    let mut total: u64 = 0;
    let mut i: usize = from;
    proof {
        assert(body.take(0) =~= Seq::<char>::empty());
    }
    while i < n
        invariant
            v@ == text@,
            n == v@.len(),
            from <= i <= n,
            from < n,
            body == unsigned(text@),
            body == text@.skip(from as int),
            total == value(body.take(i - from)),
            total <= maximum,
            forall|j: int| 0 <= j < i - from ==> is_digit(#[trigger] body[j]),
        decreases n - i,
    {
        let c: char = v[i];
        proof {
            assert(body[i - from] == c);
        }
        if !('0' <= c && c <= '9') {
            proof {
                assert(!is_digit(body[i - from]));
            }
            return None;
        }
        let d: u64 = (c as u32 - '0' as u32) as u64;
        proof {
            lemma_value_take(body, i - from);
            lemma_value_grows(body, i - from + 1);
            assert(value(body.take(i - from + 1)) == 10 * total + d);
        }
        if total > maximum / 10 || d > maximum - total * 10 {
            return None;
        }
        total = total * 10 + d;
        i += 1;
    }
    proof {
        assert(body.take(n - from) =~= body);
    }
    Some(total)
}

/// Reads a machine-size number.
pub fn parse_usize(text: &str) -> (r: Option<usize>)
    ensures
        match r {
            Some(n) => parsed_within(text@, usize::MAX as nat) == Some(n as nat),
            None => parsed_within(text@, usize::MAX as nat) is None,
        },
{
    match parse_within(text, usize::MAX as u64) {
        Some(n) => Some(n as usize),
        None => None,
    }
}

proof fn lemma_digits(n: nat)
    ensures
        digits(n).len() > 0,
        value(digits(n)) == n,
        forall|i: int| 0 <= i < digits(n).len() ==> is_digit(#[trigger] digits(n)[i]),
    decreases n,
{
    if n < 10 {
        assert(digits(n).drop_last() =~= Seq::<char>::empty());
        assert(value(digits(n).drop_last()) == 0);
    } else {
        lemma_digits(n / 10);
        assert(digits(n).drop_last() =~= digits(n / 10));
    }
}

/// A written number is read back.
pub proof fn law_decimal_round_trip(n: nat)
    ensures
        parsed(digits(n)) == Some(n),
{
    lemma_digits(n);
    assert(is_digit(digits(n)[0]));
}

/// The digits of a number: one digit more stands for ten times the number and that digit, and only
/// zero begins with a zero.
pub proof fn law_digits(n: nat, d: nat)
    requires
        d < 10,
    ensures
        n > 0 ==> digits(10 * n + d) == digits(n).push(digit(d)),
        digits(d) == seq![digit(d)],
        n > 0 ==> digits(n)[0] != '0',
        digit(d) as u32 == 48 + d,
        is_digit(digit(d)),
        digits(n).len() > 0,
    decreases n,
{
    if n > 0 {
        assert((10 * n + d) / 10 == n && (10 * n + d) % 10 == d) by (nonlinear_arith)
            requires
                d < 10,
        ;
        if n >= 10 {
            law_digits(n / 10, n % 10);
        }
    }
}

/// A text is a number where it is digits alone, with at most one plus sign before them; leading
/// zeros change nothing, and a number above the maximum is none.
pub proof fn law_parsed(s: Seq<char>, maximum: nat)
    requires
        numeric(s),
    ensures
        parsed(s) == Some(value(s)),
        parsed(seq!['+'] + s) == Some(value(s)),
        parsed(seq!['-'] + s) is None,
        parsed(seq!['+', '+'] + s) is None,
        parsed(s.push(' ')) is None,
        parsed(seq![]) is None,
        parsed(seq!['+']) is None,
        parsed_within(s, maximum) is Some <==> value(s) <= maximum,
        parsed_within(s, maximum) is Some ==> parsed_within(s, maximum) == Some(value(s)),
{
    assert(is_digit(s[0]));
    let plus = seq!['+'] + s;
    assert(plus.drop_first() =~= s);
    let minus = seq!['-'] + s;
    assert(minus[0] == '-');
    let twice = seq!['+', '+'] + s;
    assert(twice.drop_first()[0] == '+');
    let spaced = s.push(' ');
    assert(spaced[spaced.len() - 1] == ' ');
    assert(unsigned(spaced) == spaced);
    assert(seq!['+'].drop_first() =~= Seq::<char>::empty());
}

/// What a run of digits stands for: each digit more counts ten times what stands before it.
pub proof fn law_value(s: Seq<char>, d: nat)
    requires
        d < 10,
    ensures
        value(s.push(digit(d))) == 10 * value(s) + d,
        value(seq![]) == 0,
{
    assert(s.push(digit(d)).drop_last() =~= s);
}

} // verus!
