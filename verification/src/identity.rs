//! Fresh identifiers from random bytes.
use vstd::prelude::*;
use vstd::string::*;

verus! {

/// `getrandom::fill` fills a buffer with random bytes, or fails. What it fills in is chance.
#[verifier::external_body]
fn entropy() -> (r: Option<[u8; 16]>) {
    let mut bytes = [0_u8; 16];
    getrandom::fill(&mut bytes).ok()?;
    Some(bytes)
}

/// A lower-case hexadecimal digit.
pub open spec fn hex_digit(n: int) -> char {
    if n < 10 {
        ('0' as u32 + n) as char
    } else {
        ('a' as u32 + (n - 10)) as char
    }
}

/// The two hexadecimal digits of each byte, in order.
pub open spec fn hex_of(bytes: Seq<u8>) -> Seq<char>
    decreases bytes.len(),
{
    if bytes.len() == 0 {
        seq![]
    } else {
        hex_of(bytes.drop_last()).push(hex_digit(bytes.last() as int / 16)).push(
            hex_digit(bytes.last() as int % 16),
        )
    }
}

fn digit(n: u8) -> (c: char)
    requires
        n < 16,
    ensures
        c == hex_digit(n as int),
{
    if n < 10 {
        (48u8 + n) as char
    } else {
        (87u8 + n) as char
    }
}

/// Writes bytes in hexadecimal.
pub fn encode_hex(bytes: &[u8]) -> (r: String)
    ensures
        r@ == hex_of(bytes@),
{
    let mut out: String = String::new();
    let mut i: usize = 0;
    proof {
        assert(bytes@.take(0) =~= Seq::<u8>::empty());
        assert(out@ =~= hex_of(bytes@.take(0)));
    }
    while i < bytes.len()
        invariant
            i <= bytes@.len(),
            out@ == hex_of(bytes@.take(i as int)),
        decreases bytes@.len() - i,
    {
        let b: u8 = bytes[i];
        proof {
            assert(bytes@.take(i as int + 1).drop_last() =~= bytes@.take(i as int));
        }
        out.push(digit(b / 16));
        out.push(digit(b % 16));
        i += 1;
    }
    proof {
        assert(bytes@.take(i as int) =~= bytes@);
    }
    out
}

/// The sixteen bytes of a number, most significant first, from their little-endian order.
pub open spec fn big_endian(bytes: Seq<u8>) -> Seq<u8> {
    bytes.reverse()
}

/// An identifier: a prefix and the 128-bit number of the bytes in hexadecimal.
pub open spec fn identity(prefix: Seq<char>, bytes: Seq<u8>) -> Seq<char> {
    prefix + hex_of(big_endian(bytes))
}

/// Makes an identifier from sixteen bytes.
pub fn make_identity(prefix: &str, bytes: [u8; 16]) -> (r: String)
    ensures
        r@ == identity(prefix@, bytes@),
{
    let mut out: String = prefix.to_owned();
    let ghost all = big_endian(bytes@);
    let mut i: usize = 0;
    proof {
        assert(all.take(0) =~= Seq::<u8>::empty());
        assert(hex_of(all.take(0)) =~= Seq::<char>::empty());
        assert(prefix@ + Seq::<char>::empty() =~= prefix@);
    }
    while i < 16
        invariant
            i <= 16,
            all == big_endian(bytes@),
            all.len() == 16,
            out@ == prefix@ + hex_of(all.take(i as int)),
        decreases 16 - i,
    {
        let b: u8 = bytes[15 - i];
        proof {
            assert(all[i as int] == b);
            assert(all.take(i as int + 1).drop_last() =~= all.take(i as int));
        }
        out.push(digit(b / 16));
        out.push(digit(b % 16));
        proof {
            assert(out@ =~= prefix@ + hex_of(all.take(i as int + 1)));
        }
        i += 1;
    }
    proof {
        assert(all.take(16) =~= all);
    }
    out
}

/// Whether a text is an identifier with this prefix.
pub open spec fn is_identity(prefix: Seq<char>, s: Seq<char>) -> bool {
    exists|bytes: Seq<u8>| bytes.len() == 16 && s == #[trigger] identity(prefix, bytes)
}

/// A fresh session identifier, unless there is no randomness to be had.
pub fn generated_cli_session_id() -> (r: Option<String>)
    ensures
        r matches Some(id) ==> is_identity("session-"@, id@),
{
    match entropy() {
        Some(bytes) => Some(make_identity("session-", bytes)),
        None => None,
    }
}

/// A fresh message identifier, unless there is no randomness to be had.
pub fn generated_cli_message_id() -> (r: Option<String>)
    ensures
        r matches Some(id) ==> is_identity("message-"@, id@),
{
    match entropy() {
        Some(bytes) => Some(make_identity("message-", bytes)),
        None => None,
    }
}

/// The identifier of a conversation with an agent of another program: the bytes in their order.
pub open spec fn external_identity(bytes: Seq<u8>) -> Seq<char> {
    "external_"@ + hex_of(bytes)
}

/// Whether a text is the identifier of such a conversation.
pub open spec fn is_external_identity(s: Seq<char>) -> bool {
    exists|bytes: Seq<u8>| bytes.len() == 16 && s == #[trigger] external_identity(bytes)
}

/// Makes the identifier of such a conversation from sixteen bytes.
pub fn make_external_identity(bytes: [u8; 16]) -> (r: String)
    ensures
        r@ == external_identity(bytes@),
{
    let hex = encode_hex(bytes.as_slice());
    let mut out = "external_".to_owned();
    out.append(hex.as_str());
    out
}

/// A fresh identifier of such a conversation, unless there is no randomness to be had.
pub fn generated_external_id() -> (r: Option<String>)
    ensures
        r matches Some(id) ==> is_external_identity(id@),
{
    match entropy() {
        Some(bytes) => {
            let id = make_external_identity(bytes);
            proof {
                assert(bytes@.len() == 16);
                assert(id@ == external_identity(bytes@));
            }
            Some(id)
        },
        None => None,
    }
}

/// The number of characters in a run of hexadecimal digits.
pub proof fn lemma_hex_len(bytes: Seq<u8>)
    ensures
        hex_of(bytes).len() == 2 * bytes.len(),
    decreases bytes.len(),
{
    if bytes.len() > 0 {
        lemma_hex_len(bytes.drop_last());
    }
}

proof fn lemma_hex_digit(n: int, m: int)
    requires
        0 <= n < 16,
        0 <= m < 16,
        hex_digit(n) == hex_digit(m),
    ensures
        n == m,
{
}

proof fn lemma_hex_injective(a: Seq<u8>, b: Seq<u8>)
    requires
        a.len() == b.len(),
        hex_of(a) == hex_of(b),
    ensures
        a == b,
    decreases a.len(),
{
    if a.len() > 0 {
        let x = hex_of(a);
        let y = hex_of(b);
        assert(x.drop_last().drop_last() =~= hex_of(a.drop_last()));
        assert(y.drop_last().drop_last() =~= hex_of(b.drop_last()));
        lemma_hex_injective(a.drop_last(), b.drop_last());
        assert(x.last() == hex_digit(a.last() as int % 16));
        assert(y.last() == hex_digit(b.last() as int % 16));
        assert(x.drop_last().last() == hex_digit(a.last() as int / 16));
        assert(y.drop_last().last() == hex_digit(b.last() as int / 16));
        lemma_hex_digit(a.last() as int % 16, b.last() as int % 16);
        lemma_hex_digit(a.last() as int / 16, b.last() as int / 16);
        assert(a =~= a.drop_last().push(a.last()));
        assert(b =~= b.drop_last().push(b.last()));
    } else {
        assert(a =~= b);
    }
}

/// Different random bytes make different identifiers of the same length.
pub proof fn law_identity_injective(prefix: Seq<char>, a: Seq<u8>, b: Seq<u8>)
    requires
        a.len() == 16,
        b.len() == 16,
        identity(prefix, a) == identity(prefix, b),
    ensures
        a == b,
        identity(prefix, a).len() == prefix.len() + 32,
{
    lemma_hex_len(big_endian(a));
    let x = identity(prefix, a);
    let y = identity(prefix, b);
    assert(x.skip(prefix.len() as int) =~= hex_of(big_endian(a)));
    assert(y.skip(prefix.len() as int) =~= hex_of(big_endian(b)));
    lemma_hex_injective(big_endian(a), big_endian(b));
    assert(a =~= big_endian(a).reverse());
    assert(b =~= big_endian(b).reverse());
}

/// The value of a lower-case hexadecimal digit.
pub open spec fn hex_value(c: char) -> int {
    if '0' <= c <= '9' {
        c as u32 - '0' as u32
    } else {
        c as u32 - 'a' as u32 + 10
    }
}

/// Each byte is written as two lower-case hexadecimal digits, the higher first, and can be read back
/// from them.
pub proof fn law_hex(bytes: Seq<u8>, b: u8)
    ensures
        hex_of(bytes.push(b)).len() == hex_of(bytes).len() + 2,
        hex_of(bytes.push(b)).take(hex_of(bytes).len() as int) == hex_of(bytes),
        16 * hex_value(hex_of(bytes.push(b))[hex_of(bytes).len() as int]) + hex_value(
            hex_of(bytes.push(b)).last(),
        ) == b,
        hex_of(seq![]).len() == 0,
        forall|n: int|
            0 <= n < 16 ==> hex_value(#[trigger] hex_digit(n)) == n && ('0' <= hex_digit(n) <= '9'
                || 'a' <= hex_digit(n) <= 'f'),
{
    assert(bytes.push(b).drop_last() =~= bytes);
    let h = hex_digit(b as int / 16);
    let l = hex_digit(b as int % 16);
    assert(hex_of(bytes.push(b)) == hex_of(bytes).push(h).push(l));
    assert(hex_of(bytes).push(h).push(l).take(hex_of(bytes).len() as int) =~= hex_of(bytes));
    assert(hex_value(h) == b as int / 16 && hex_value(l) == b as int % 16);
}

/// An identity begins with its prefix, and the bytes of the number stand behind it from the highest
/// on; that of a conversation elsewhere has them in their own order.
pub proof fn law_identity_text(prefix: Seq<char>, bytes: Seq<u8>)
    ensures
        identity(prefix, bytes).take(prefix.len() as int) == prefix,
        identity(prefix, bytes).skip(prefix.len() as int) == hex_of(bytes.reverse()),
        external_identity(bytes) == "external_"@ + hex_of(bytes),
{
    assert(identity(prefix, bytes).take(prefix.len() as int) =~= prefix);
    assert(identity(prefix, bytes).skip(prefix.len() as int) =~= hex_of(bytes.reverse()));
}

} // verus!
