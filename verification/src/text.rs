//! Text measured in UTF-8 bytes: sizes, boundaries, slicing and safe terminal display.
use vstd::prelude::*;
use vstd::string::*;
use vstd::utf8::*;

verus! {

/// `String::push` appends one scalar value to the end of the text.
pub assume_specification[ String::push ](s: &mut String, c: char)
    ensures
        final(s)@ == old(s)@.push(c),
;

/// Bytes that UTF-8 uses for one scalar value.
pub open spec fn width(c: char) -> nat {
    if (c as u32) < 0x80 {
        1
    } else if (c as u32) < 0x800 {
        2
    } else if (c as u32) < 0x10000 {
        3
    } else {
        4
    }
}

/// Bytes that UTF-8 uses for a whole text.
pub open spec fn size(s: Seq<char>) -> nat
    decreases s.len(),
{
    if s.len() == 0 {
        0
    } else {
        width(s[0]) + size(s.drop_first())
    }
}

/// The number of leading characters that fit into `at` bytes.
pub open spec fn fit(s: Seq<char>, at: int) -> nat
    decreases s.len(),
{
    if s.len() == 0 || width(s[0]) > at {
        0
    } else {
        1 + fit(s.drop_first(), at - width(s[0]))
    }
}

/// Whether the byte offset `at` falls between two characters of the text, or at one of its ends.
pub open spec fn boundary(s: Seq<char>, at: int) -> bool {
    size(s.take(fit(s, at) as int)) == at
}

pub proof fn lemma_size_encoded(s: Seq<char>)
    ensures
        encode_utf8(s).len() == size(s),
    decreases s.len(),
{
    if s.len() > 0 {
        lemma_size_encoded(s.drop_first());
        let scalar: u32 = s[0] as u32;
        assert(encode_scalar(scalar).len() == width(s[0])) by {
            char_is_scalar(s[0]);
        }
    }
}

pub proof fn lemma_size_concat(a: Seq<char>, b: Seq<char>)
    ensures
        size(a + b) == size(a) + size(b),
    decreases a.len(),
{
    if a.len() == 0 {
        assert(a + b =~= b);
    } else {
        assert((a + b).drop_first() =~= a.drop_first() + b);
        lemma_size_concat(a.drop_first(), b);
    }
}

pub proof fn lemma_size_push(a: Seq<char>, c: char)
    ensures
        size(a.push(c)) == size(a) + width(c),
{
    let one = seq![c];
    assert(one.drop_first() =~= Seq::<char>::empty());
    assert(size(one.drop_first()) == 0);
    assert(size(one) == width(c));
    assert(a.push(c) =~= a + one);
    lemma_size_concat(a, one);
}

/// A text has at least one byte for each character.
pub proof fn lemma_size_len(s: Seq<char>)
    ensures
        s.len() <= size(s) <= 4 * s.len(),
    decreases s.len(),
{
    if s.len() > 0 {
        lemma_size_len(s.drop_first());
    }
}

pub proof fn lemma_size_split(s: Seq<char>, k: int)
    requires
        0 <= k <= s.len(),
    ensures
        size(s) == size(s.take(k)) + size(s.skip(k)),
{
    assert(s =~= s.take(k) + s.skip(k));
    lemma_size_concat(s.take(k), s.skip(k));
}

/// Longer prefixes are strictly larger.
pub proof fn lemma_size_take_monotone(s: Seq<char>, i: int, j: int)
    requires
        0 <= i <= j <= s.len(),
    ensures
        size(s.take(i)) <= size(s.take(j)),
        i < j ==> size(s.take(i)) < size(s.take(j)),
{
    assert(s.take(j) =~= s.take(i) + s.subrange(i, j));
    lemma_size_concat(s.take(i), s.subrange(i, j));
    lemma_size_len(s.subrange(i, j));
}

/// `fit` is the longest prefix within the budget.
pub proof fn lemma_fit(s: Seq<char>, at: int)
    requires
        0 <= at,
    ensures
        fit(s, at) <= s.len(),
        size(s.take(fit(s, at) as int)) <= at,
        fit(s, at) < s.len() ==> size(s.take(fit(s, at) as int + 1)) > at,
    decreases s.len(),
{
    if s.len() == 0 || width(s[0]) > at {
        assert(s.take(0) =~= Seq::<char>::empty());
        if s.len() > 0 {
            let one = s.take(1);
            assert(one.drop_first() =~= Seq::<char>::empty());
        }
    } else {
        let rest = s.drop_first();
        let left: int = at - width(s[0]);
        lemma_fit(rest, left);
        let k: int = fit(rest, left) as int;
        assert(s.take(k + 1).drop_first() =~= rest.take(k));
        if k < rest.len() {
            assert(s.take(k + 2).drop_first() =~= rest.take(k + 1));
        }
    }
}

/// Only one prefix has a given size, so it is the one that `fit` finds.
pub proof fn lemma_fit_exact(s: Seq<char>, k: int)
    requires
        0 <= k <= s.len(),
    ensures
        fit(s, size(s.take(k)) as int) == k,
        boundary(s, size(s.take(k)) as int),
{
    let at: int = size(s.take(k)) as int;
    lemma_fit(s, at);
    let f: int = fit(s, at) as int;
    if f < k {
        lemma_size_take_monotone(s, f + 1, k);
    } else if k < f {
        lemma_size_take_monotone(s, k, f);
    }
}

pub proof fn lemma_boundary_ends(s: Seq<char>)
    ensures
        boundary(s, 0),
        boundary(s, size(s) as int),
        fit(s, 0) == 0,
        fit(s, size(s) as int) == s.len(),
{
    lemma_fit_exact(s, 0);
    lemma_fit_exact(s, s.len() as int);
    assert(s.take(0) =~= Seq::<char>::empty());
    assert(s.take(s.len() as int) =~= s);
}

/// A boundary splits the text into two parts with known sizes.
pub proof fn lemma_boundary_split(s: Seq<char>, at: int)
    requires
        boundary(s, at),
        0 <= at,
    ensures
        at <= size(s),
        fit(s, at) <= s.len(),
        s =~= s.take(fit(s, at) as int) + s.skip(fit(s, at) as int),
        size(s.take(fit(s, at) as int)) == at,
        size(s.skip(fit(s, at) as int)) == size(s) - at,
{
    lemma_fit(s, at);
    lemma_size_split(s, fit(s, at) as int);
}

proof fn lemma_encode_concat(a: Seq<char>, b: Seq<char>)
    ensures
        encode_utf8(a + b) =~= encode_utf8(a) + encode_utf8(b),
    decreases a.len(),
{
    if a.len() == 0 {
        assert(a + b =~= b);
    } else {
        assert((a + b).drop_first() =~= a.drop_first() + b);
        lemma_encode_concat(a.drop_first(), b);
    }
}

proof fn lemma_encoded_boundary(s: Seq<char>, k: int)
    requires
        0 <= k <= s.len(),
    ensures
        is_char_boundary(encode_utf8(s), size(s.take(k)) as int),
    decreases k,
{
    broadcast use encode_utf8_valid_utf8;

    let bytes = encode_utf8(s);
    lemma_size_encoded(s);
    if k == 0 {
        assert(s.take(0) =~= Seq::<char>::empty());
    } else {
        encode_utf8_first_scalar(s);
        assert(pop_first_scalar(bytes) =~= encode_utf8(s.drop_first()));
        assert(s.take(k).drop_first() =~= s.drop_first().take(k - 1));
        lemma_encoded_boundary(s.drop_first(), k - 1);
        lemma_size_take_monotone(s, k, s.len() as int);
        assert(s.take(s.len() as int) =~= s);
    }
}

proof fn lemma_encode_injective(a: Seq<char>, b: Seq<char>)
    requires
        encode_utf8(a) == encode_utf8(b),
    ensures
        a == b,
{
    encode_utf8_decode_utf8(a);
    encode_utf8_decode_utf8(b);
}

/// The number of bytes of a text.
pub fn byte_len(s: &str) -> (n: usize)
    ensures
        n == size(s@),
{
    proof {
        lemma_size_encoded(s@);
    }
    s.as_bytes().len()
}

/// Splits a text at a byte offset between two characters.
pub fn split<'a>(s: &'a str, at: usize) -> (r: (&'a str, &'a str))
    requires
        boundary(s@, at as int),
    ensures
        r.0@ == s@.take(fit(s@, at as int) as int),
        r.1@ == s@.skip(fit(s@, at as int) as int),
        r.0@ + r.1@ == s@,
        size(r.0@) == at,
{
    proof {
        let k: int = fit(s@, at as int) as int;
        lemma_boundary_split(s@, at as int);
        lemma_encoded_boundary(s@, k);
    }
    let r = s.split_at(at);
    proof {
        let k: int = fit(s@, at as int) as int;
        lemma_encode_concat(s@.take(k), s@.skip(k));
        lemma_size_encoded(s@.take(k));
        assert(encode_utf8(s@.take(k)) =~= s.spec_bytes().subrange(0, at as int));
        assert(encode_utf8(s@.skip(k)) =~= s.spec_bytes().subrange(
            at as int,
            s.spec_bytes().len() as int,
        ));
        lemma_encode_injective(r.0@, s@.take(k));
        lemma_encode_injective(r.1@, s@.skip(k));
    }
    r
}

/// The part of a text between two byte offsets.
pub fn slice<'a>(s: &'a str, from: usize, to: usize) -> (r: &'a str)
    requires
        from <= to,
        boundary(s@, from as int),
        boundary(s@, to as int),
    ensures
        r@ == s@.subrange(fit(s@, from as int) as int, fit(s@, to as int) as int),
        fit(s@, from as int) <= fit(s@, to as int) <= s@.len(),
        size(r@) == to - from,
{
    let (_, tail) = split(s, from);
    proof {
        let i: int = fit(s@, from as int) as int;
        let j: int = fit(s@, to as int) as int;
        lemma_fit(s@, from as int);
        lemma_fit(s@, to as int);
        if j < i {
            lemma_size_take_monotone(s@, j, i);
        }
        assert(s@.take(j) =~= s@.take(i) + tail@.take(j - i));
        lemma_size_concat(s@.take(i), tail@.take(j - i));
        lemma_fit_exact(tail@, j - i);
    }
    let (middle, _) = split(tail, to - from);
    proof {
        let i: int = fit(s@, from as int) as int;
        let j: int = fit(s@, to as int) as int;
        assert(middle@ =~= s@.subrange(i, j));
    }
    middle
}

/// The characters of a text.
pub fn characters(s: &str) -> (v: Vec<char>)
    ensures
        v@ == s@,
{
    let mut v: Vec<char> = Vec::new();
    for c in it: s.chars()
        invariant
            it.seq() == s@,
            v@ == s@.take(it.index() as int),
    {
        proof {
            assert(s@.take(it.index() as int + 1) =~= s@.take(it.index() as int).push(c));
        }
        v.push(c);
    }
    proof {
        assert(s@.take(s@.len() as int) =~= s@);
    }
    v
}

/// A text made of the characters in a range of a slice.
pub fn collect(v: &[char], from: usize, to: usize) -> (s: String)
    requires
        from <= to <= v@.len(),
    ensures
        s@ == v@.subrange(from as int, to as int),
{
    let mut s = String::new();
    let mut i: usize = from;
    while i < to
        invariant
            from <= i <= to <= v@.len(),
            s@ == v@.subrange(from as int, i as int),
        decreases to - i,
    {
        s.push(v[i]);
        i += 1;
        proof {
            assert(v@.subrange(from as int, i as int) =~= v@.subrange(from as int, i - 1).push(
                v@[i - 1],
            ));
        }
    }
    s
}

/// The number of bytes of one character.
pub fn char_len(c: char) -> (n: usize)
    ensures
        n == width(c),
{
    let u: u32 = c as u32;
    if u < 0x80 {
        1
    } else if u < 0x800 {
        2
    } else if u < 0x10000 {
        3
    } else {
        4
    }
}

/// Whether two texts hold the same characters.
pub fn same(a: &str, b: &str) -> (r: bool)
    ensures
        r == (a@ == b@),
{
    let x = a.as_bytes();
    let y = b.as_bytes();
    if x.len() != y.len() {
        return false;
    }
    let mut i: usize = 0;
    while i < x.len()
        invariant
            x@ == a.spec_bytes(),
            y@ == b.spec_bytes(),
            x@.len() == y@.len(),
            i <= x@.len(),
            forall|j: int| 0 <= j < i ==> x@[j] == y@[j],
        decreases x@.len() - i,
    {
        if x[i] != y[i] {
            return false;
        }
        i += 1;
    }
    proof {
        assert(x@ =~= y@);
        lemma_encode_injective(a@, b@);
    }
    true
}

/// Whether a text contains a character.
pub fn contains_char(s: &str, c: char) -> (r: bool)
    ensures
        r == s@.contains(c),
{
    for x in it: s.chars()
        invariant
            it.seq() == s@,
            !s@.take(it.index() as int).contains(c),
    {
        if x == c {
            proof {
                assert(s@[it.index() as int] == c);
            }
            return true;
        }
        proof {
            let i: int = it.index() as int;
            let seen = s@.take(i);
            let now = s@.take(i + 1);
            assert(now =~= seen.push(x));
            assert forall|j: int| 0 <= j < now.len() implies now[j] != c by {
                if j < i {
                    assert(seen.contains(seen[j]));
                }
            }
        }
    }
    proof {
        assert(s@.take(s@.len() as int) =~= s@);
    }
    false
}

/// Whether a text begins with another text.
pub open spec fn begins(s: Seq<char>, prefix: Seq<char>) -> bool {
    prefix.len() <= s.len() && s.take(prefix.len() as int) == prefix
}

pub fn starts_with(s: &str, prefix: &str) -> (r: bool)
    ensures
        r == begins(s@, prefix@),
{
    let a = characters(s);
    let b = characters(prefix);
    if b.len() > a.len() {
        return false;
    }
    let mut i: usize = 0;
    while i < b.len()
        invariant
            a@ == s@,
            b@ == prefix@,
            b@.len() <= a@.len(),
            i <= b@.len(),
            forall|j: int| 0 <= j < i ==> a@[j] == b@[j],
        decreases b@.len() - i,
    {
        if a[i] != b[i] {
            proof {
                assert(s@.take(b@.len() as int)[i as int] != prefix@[i as int]);
            }
            return false;
        }
        i += 1;
    }
    proof {
        assert(s@.take(b@.len() as int) =~= prefix@);
    }
    true
}

/// Whether `part` occurs in `s` at the character index `i`.
pub open spec fn part_at(s: Seq<char>, part: Seq<char>, i: int) -> bool {
    0 <= i && i + part.len() <= s.len() && s.subrange(i, i + part.len()) == part
}

/// Whether `part` occurs anywhere in `s`.
pub open spec fn includes(s: Seq<char>, part: Seq<char>) -> bool {
    exists|i: int| part_at(s, part, i)
}

fn matches_at(a: &[char], b: &[char], at: usize) -> (r: bool)
    requires
        at + b@.len() <= a@.len(),
    ensures
        r == part_at(a@, b@, at as int),
{
    let total: usize = a.len();
    let mut i: usize = 0;
    while i < b.len()
        invariant
            total == a@.len(),
            at + b@.len() <= total,
            i <= b@.len(),
            forall|j: int| 0 <= j < i ==> a@[at + j] == b@[j],
        decreases b@.len() - i,
    {
        if a[at + i] != b[i] {
            proof {
                assert(a@.subrange(at as int, at + b@.len())[i as int] != b@[i as int]);
            }
            return false;
        }
        i += 1;
    }
    proof {
        assert(a@.subrange(at as int, at + b@.len()) =~= b@);
    }
    true
}

/// Whether a text contains another text.
pub fn contains_text(s: &str, part: &str) -> (r: bool)
    ensures
        r == includes(s@, part@),
{
    let a = characters(s);
    let b = characters(part);
    if b.len() > a.len() {
        return false;
    }
    let last: usize = a.len() - b.len();
    let mut i: usize = 0;
    while i <= last
        invariant
            a@ == s@,
            b@ == part@,
            last == a@.len() - b@.len(),
            i <= last + 1,
            last < usize::MAX || b@.len() == 0,
            forall|j: int| 0 <= j < i ==> !part_at(s@, part@, j),
        decreases last + 1 - i,
    {
        if matches_at(a.as_slice(), b.as_slice(), i) {
            return true;
        }
        if i == last {
            proof {
                assert forall|j: int| !part_at(s@, part@, j) by {}
            }
            return false;
        }
        i += 1;
    }
    false
}

/// A Unicode control character (general category `Cc`).
pub open spec fn control(c: char) -> bool {
    (c as u32) < 0x20 || 0x7f <= (c as u32) <= 0x9f
}

pub fn is_control(c: char) -> (r: bool)
    ensures
        r == control(c),
{
    let u: u32 = c as u32;
    u < 0x20 || (0x7f <= u && u <= 0x9f)
}

/// A character with the Unicode `White_Space` property.
pub open spec fn blank(c: char) -> bool {
    let u = c as u32;
    ||| 0x9 <= u <= 0xd
    ||| u == 0x20
    ||| u == 0x85
    ||| u == 0xa0
    ||| u == 0x1680
    ||| 0x2000 <= u <= 0x200a
    ||| u == 0x2028
    ||| u == 0x2029
    ||| u == 0x202f
    ||| u == 0x205f
    ||| u == 0x3000
}

pub fn is_blank(c: char) -> (r: bool)
    ensures
        r == blank(c),
{
    let u: u32 = c as u32;
    (0x9 <= u && u <= 0xd) || u == 0x20 || u == 0x85 || u == 0xa0 || u == 0x1680 || (0x2000 <= u
        && u <= 0x200a) || u == 0x2028 || u == 0x2029 || u == 0x202f || u == 0x205f || u == 0x3000
}

/// The number of leading white-space characters.
pub open spec fn lead(s: Seq<char>) -> nat
    decreases s.len(),
{
    if s.len() > 0 && blank(s[0]) {
        1 + lead(s.drop_first())
    } else {
        0
    }
}

/// The number of leading characters that are not white space.
pub open spec fn word(s: Seq<char>) -> nat
    decreases s.len(),
{
    if s.len() > 0 && !blank(s[0]) {
        1 + word(s.drop_first())
    } else {
        0
    }
}

/// The number of trailing white-space characters.
pub open spec fn trail(s: Seq<char>) -> nat
    decreases s.len(),
{
    if s.len() > 0 && blank(s.last()) {
        1 + trail(s.drop_last())
    } else {
        0
    }
}

/// A text without the white space at its ends.
pub open spec fn trimmed(s: Seq<char>) -> Seq<char> {
    let t = s.skip(lead(s) as int);
    t.take(t.len() - trail(t))
}

/// The white-space separated words of a text, in order.
pub open spec fn words(s: Seq<char>) -> Seq<Seq<char>>
    decreases s.len(),
{
    let from = lead(s);
    let t = s.skip(from as int);
    if from > s.len() || t.len() == 0 || word(t) == 0 || word(t) > t.len() {
        seq![]
    } else {
        seq![t.take(word(t) as int)] + words(t.skip(word(t) as int))
    }
}

pub proof fn lemma_lead(s: Seq<char>)
    ensures
        lead(s) <= s.len(),
        forall|i: int| 0 <= i < lead(s) ==> blank(s[i]),
        lead(s) < s.len() ==> !blank(s[lead(s) as int]),
    decreases s.len(),
{
    if s.len() > 0 && blank(s[0]) {
        let t = s.drop_first();
        lemma_lead(t);
        assert forall|i: int| 0 <= i < lead(s) implies blank(s[i]) by {
            if i > 0 {
                assert(s[i] == t[i - 1]);
            }
        }
    }
}

/// The leading run ends at the first character that breaks it.
pub proof fn lemma_lead_is(s: Seq<char>, k: int)
    requires
        0 <= k <= s.len(),
        forall|i: int| 0 <= i < k ==> blank(s[i]),
        k < s.len() ==> !blank(s[k]),
    ensures
        lead(s) == k,
{
    lemma_lead(s);
}

pub proof fn lemma_word(s: Seq<char>)
    ensures
        word(s) <= s.len(),
        forall|i: int| 0 <= i < word(s) ==> !blank(s[i]),
        word(s) < s.len() ==> blank(s[word(s) as int]),
    decreases s.len(),
{
    if s.len() > 0 && !blank(s[0]) {
        let t = s.drop_first();
        lemma_word(t);
        assert forall|i: int| 0 <= i < word(s) implies !blank(s[i]) by {
            if i > 0 {
                assert(s[i] == t[i - 1]);
            }
        }
    }
}

pub proof fn lemma_trail(s: Seq<char>)
    ensures
        trail(s) <= s.len(),
        forall|i: int| s.len() - trail(s) <= i < s.len() ==> blank(s[i]),
        trail(s) < s.len() ==> !blank(s[s.len() - trail(s) - 1]),
    decreases s.len(),
{
    if s.len() > 0 && blank(s.last()) {
        let t = s.drop_last();
        lemma_trail(t);
        assert forall|i: int| s.len() - trail(s) <= i < s.len() implies blank(s[i]) by {
            if i < t.len() {
                assert(s[i] == t[i]);
            }
        }
    }
}

/// Removes the white space at both ends.
pub fn trim(s: &str) -> (r: String)
    ensures
        r@ == trimmed(s@),
{
    let v = characters(s);
    let n: usize = v.len();
    let mut from: usize = 0;
    while from < n && is_blank(v[from])
        invariant
            n == v@.len(),
            from <= n,
            forall|i: int| 0 <= i < from ==> blank(v@[i]),
        decreases n - from,
    {
        from += 1;
    }
    let mut to: usize = n;
    while to > from && is_blank(v[to - 1])
        invariant
            n == v@.len(),
            from <= to <= n,
            forall|i: int| to <= i < n ==> blank(v@[i]),
        decreases to,
    {
        to -= 1;
    }
    proof {
        lemma_lead_is(s@, from as int);
        let t = s@.skip(from as int);
        lemma_trail(t);
        let cut: int = to - from;
        assert(forall|i: int| cut <= i < t.len() ==> blank(t[i]));
        if t.len() - trail(t) < cut {
            assert(blank(t[cut - 1]));
        }
        assert(t.len() - trail(t) == cut);
        assert(t.take(cut) =~= v@.subrange(from as int, to as int));
    }
    collect(v.as_slice(), from, to)
}

/// The texts that a vector of strings holds.
pub open spec fn views(v: Seq<String>) -> Seq<Seq<char>> {
    Seq::new(v.len(), |i: int| v[i]@)
}

/// Splits a text at white space.
pub fn split_words(s: &str) -> (r: Vec<String>)
    ensures
        views(r@) == words(s@),
{
    let v = characters(s);
    let n: usize = v.len();
    let mut out: Vec<String> = Vec::new();
    let mut i: usize = 0;
    proof {
        assert(s@.skip(0) =~= s@);
        assert(views(out@) + words(s@) =~= words(s@));
    }
    loop
        invariant
            n == v@.len(),
            v@ == s@,
            i <= n,
            views(out@) + words(s@.skip(i as int)) == words(s@),
        decreases n - i,
    {
        let start: usize = i;
        while i < n && is_blank(v[i])
            invariant
                n == v@.len(),
                v@ == s@,
                start <= i <= n,
                forall|k: int| start <= k < i ==> blank(v@[k]),
            decreases n - i,
        {
            i += 1;
        }
        let begin: usize = i;
        proof {
            let t = s@.skip(start as int);
            assert forall|k: int| 0 <= k < begin - start implies blank(t[k]) by {
                assert(t[k] == v@[start + k]);
            }
            lemma_lead_is(t, begin - start);
            assert(t.skip(begin - start) =~= s@.skip(begin as int));
        }
        while i < n && !is_blank(v[i])
            invariant
                n == v@.len(),
                v@ == s@,
                begin <= i <= n,
                forall|k: int| begin <= k < i ==> !blank(v@[k]),
            decreases n - i,
        {
            i += 1;
        }
        proof {
            let t = s@.skip(begin as int);
            lemma_word(t);
            let k: int = i - begin;
            assert(forall|j: int| 0 <= j < k ==> !blank(t[j]));
            assert(k < t.len() ==> blank(t[k]));
            assert(word(t) == k);
            assert(t.take(k) =~= v@.subrange(begin as int, i as int));
            assert(t.skip(k) =~= s@.skip(i as int));
        }
        if begin == i {
            proof {
                assert(words(s@.skip(start as int)) =~= Seq::<Seq<char>>::empty());
                assert(views(out@) =~= words(s@));
            }
            return out;
        }
        let ghost before = views(out@);
        let item = collect(v.as_slice(), begin, i);
        let ghost text = item@;
        out.push(item);
        proof {
            assert(views(out@) =~= before.push(text));
            assert(words(s@.skip(start as int)) == seq![text] + words(s@.skip(i as int)));
            assert(before.push(text) + words(s@.skip(i as int)) =~= before + (seq![text] + words(
                s@.skip(i as int),
            )));
        }
    }
}

/// Two texts in a row.
pub fn cat2(a: &str, b: &str) -> (r: String)
    ensures
        r@ == a@ + b@,
{
    let mut r: String = a.to_owned();
    r.append(b);
    r
}

/// Three texts in a row.
pub fn cat3(a: &str, b: &str, c: &str) -> (r: String)
    ensures
        r@ == a@ + b@ + c@,
{
    let mut r: String = cat2(a, b);
    r.append(c);
    r
}

/// Four texts in a row.
pub fn cat4(a: &str, b: &str, c: &str, d: &str) -> (r: String)
    ensures
        r@ == a@ + b@ + c@ + d@,
{
    let mut r: String = cat3(a, b, c);
    r.append(d);
    r
}

/// Five texts in a row.
pub fn cat5(a: &str, b: &str, c: &str, d: &str, e: &str) -> (r: String)
    ensures
        r@ == a@ + b@ + c@ + d@ + e@,
{
    let mut r: String = cat4(a, b, c, d);
    r.append(e);
    r
}

/// Whether a text comes before another: lexicographic order by scalar value, which is that of the
/// bytes.
pub open spec fn before(a: Seq<char>, b: Seq<char>) -> bool
    decreases a.len(),
{
    if b.len() == 0 {
        false
    } else if a.len() == 0 {
        true
    } else if a[0] == b[0] {
        before(a.drop_first(), b.drop_first())
    } else {
        a[0] < b[0]
    }
}

/// Says whether a text comes before another.
pub fn is_before(a: &str, b: &str) -> (r: bool)
    ensures
        r == before(a@, b@),
{
    let x = characters(a);
    let y = characters(b);
    let mut i: usize = 0;
    proof {
        assert(x@.skip(0) =~= x@);
        assert(y@.skip(0) =~= y@);
    }
    while i < x.len() && i < y.len()
        invariant
            x@ == a@,
            y@ == b@,
            i <= x@.len(),
            i <= y@.len(),
            before(a@, b@) == before(x@.skip(i as int), y@.skip(i as int)),
        decreases x@.len() - i,
    {
        if x[i] != y[i] {
            return x[i] < y[i];
        }
        proof {
            assert(x@.skip(i as int).drop_first() =~= x@.skip(i as int + 1));
            assert(y@.skip(i as int).drop_first() =~= y@.skip(i as int + 1));
        }
        i += 1;
    }
    i < y.len()
}

/// The order of texts is strict and total.
pub proof fn lemma_before(a: Seq<char>, b: Seq<char>)
    ensures
        !(before(a, b) && before(b, a)),
        a == b ==> !before(a, b),
        a != b ==> before(a, b) || before(b, a),
    decreases a.len(),
{
    if a.len() > 0 && b.len() > 0 {
        lemma_before(a.drop_first(), b.drop_first());
        if a[0] == b[0] && a.drop_first() == b.drop_first() {
            assert(a =~= seq![a[0]] + a.drop_first());
            assert(b =~= seq![b[0]] + b.drop_first());
        }
    } else if a.len() == 0 && b.len() == 0 {
        assert(a =~= b);
    }
}

/// The order of texts is transitive.
pub proof fn lemma_before_chain(a: Seq<char>, b: Seq<char>, c: Seq<char>)
    requires
        before(a, b),
        before(b, c),
    ensures
        before(a, c),
    decreases a.len(),
{
    if a.len() > 0 && b.len() > 0 && c.len() > 0 && a[0] == b[0] && b[0] == c[0] {
        lemma_before_chain(a.drop_first(), b.drop_first(), c.drop_first());
    }
}

/// Words with a space between each two.
pub open spec fn joined(words: Seq<Seq<char>>) -> Seq<char>
    decreases words.len(),
{
    if words.len() == 0 {
        seq![]
    } else if words.len() == 1 {
        words[0]
    } else {
        words[0] + seq![' '] + joined(words.drop_first())
    }
}

/// Whether a text is one word.
pub open spec fn one_word(s: Seq<char>) -> bool {
    s.len() > 0 && forall|i: int| 0 <= i < s.len() ==> !blank(#[trigger] s[i])
}

/// The words of a text are words.
pub proof fn lemma_words_are_words(s: Seq<char>)
    ensures
        forall|i: int| 0 <= i < words(s).len() ==> one_word(#[trigger] words(s)[i]),
    decreases s.len(),
{
    let from = lead(s);
    let t = s.skip(from as int);
    if !(from > s.len() || t.len() == 0 || word(t) == 0 || word(t) > t.len()) {
        let rest = t.skip(word(t) as int);
        lemma_words_are_words(rest);
        lemma_word(t);
        assert forall|i: int| 0 <= i < words(s).len() implies one_word(#[trigger] words(s)[i]) by {
            if i == 0 {
                assert(words(s)[0] == t.take(word(t) as int));
            } else {
                assert(words(s)[i] == words(rest)[i - 1]);
            }
        }
    }
}

proof fn lemma_words_behind_space(s: Seq<char>)
    ensures
        words(seq![' '] + s) == words(s),
{
    let more = seq![' '] + s;
    assert(more.drop_first() =~= s);
    lemma_lead(s);
    assert(more.skip(lead(more) as int) =~= s.skip(lead(s) as int));
}

/// Words that are joined are the words of what they give.
pub proof fn lemma_words_joined(v: Seq<Seq<char>>)
    requires
        forall|i: int| 0 <= i < v.len() ==> one_word(#[trigger] v[i]),
    ensures
        words(joined(v)) == v,
    decreases v.len(),
{
    let s = joined(v);
    if v.len() == 0 {
        assert(words(s) =~= v);
    } else {
        let first = v[0];
        let n = first.len() as int;
        let rest = v.drop_first();
        assert forall|i: int| 0 <= i < rest.len() implies one_word(#[trigger] rest[i]) by {
            assert(rest[i] == v[i + 1]);
        }
        lemma_words_joined(rest);
        assert(s[0] == first[0]);
        assert(!blank(first[0]));
        lemma_lead_is(s, 0);
        assert(s.skip(0) =~= s);
        lemma_word(s);
        let w = word(s) as int;
        if w < n {
            assert(s[w] == first[w]);
            assert(!blank(first[w]));
        }
        if v.len() == 1 {
            assert(w == n);
            assert(s.skip(n) =~= seq![]);
            assert(joined(rest) =~= seq![]);
        } else {
            assert(s[n] == ' ');
            assert(w == n);
            assert(s.skip(n) =~= seq![' '] + joined(rest));
            lemma_words_behind_space(joined(rest));
        }
        assert(s.take(n) =~= first);
        assert(seq![first] + rest =~= v);
    }
}

/// Joined words hold no white space but spaces.
pub proof fn lemma_joined_on_one_line(v: Seq<Seq<char>>, c: char)
    requires
        forall|i: int| 0 <= i < v.len() ==> one_word(#[trigger] v[i]),
        blank(c),
        c != ' ',
    ensures
        !joined(v).contains(c),
    decreases v.len(),
{
    let s = joined(v);
    if v.len() > 0 {
        let rest = v.drop_first();
        assert forall|i: int| 0 <= i < rest.len() implies one_word(#[trigger] rest[i]) by {
            assert(rest[i] == v[i + 1]);
        }
        lemma_joined_on_one_line(rest, c);
        assert forall|i: int| 0 <= i < s.len() implies s[i] != c by {
            let n = v[0].len() as int;
            if i < n {
                assert(s[i] == v[0][i]);
                assert(!blank(v[0][i]));
            } else if i > n {
                assert(s[i] == joined(rest)[i - n - 1]);
                assert(joined(rest).contains(joined(rest)[i - n - 1]));
            }
        }
    }
}

/// What is left of a text once it is trimmed: nothing but white space was taken from its ends, and
/// its own ends are no white space.
pub proof fn law_trimmed(s: Seq<char>) -> (ends: (int, int))
    ensures
        0 <= ends.0 <= ends.1 <= s.len(),
        trimmed(s) == s.subrange(ends.0, ends.1),
        forall|i: int| 0 <= i < ends.0 ==> blank(#[trigger] s[i]),
        forall|i: int| ends.1 <= i < s.len() ==> blank(#[trigger] s[i]),
        ends.0 < ends.1 ==> !blank(s[ends.0]) && !blank(s[ends.1 - 1]),
        trimmed(trimmed(s)) == trimmed(s),
{
    lemma_lead(s);
    let from = lead(s) as int;
    let t = s.skip(from);
    lemma_trail(t);
    let to = from + t.len() - trail(t);
    assert forall|i: int| to <= i < s.len() implies blank(#[trigger] s[i]) by {
        assert(t[i - from] == s[i]);
    }
    assert(trimmed(s) =~= s.subrange(from, to));
    if from < to {
        assert(t[to - from - 1] == s[to - 1]);
        assert(t[0] == s[from]);
    }
    let u = trimmed(s);
    lemma_trimmed_is(u, 0, u.len() as int);
    assert(u.subrange(0, u.len() as int) =~= u);
    (from, to)
}

/// What stands between white space at both ends is what is left once it is trimmed.
pub proof fn lemma_trimmed_is(s: Seq<char>, from: int, to: int)
    requires
        0 <= from <= to <= s.len(),
        forall|i: int| 0 <= i < from ==> blank(#[trigger] s[i]),
        forall|i: int| to <= i < s.len() ==> blank(#[trigger] s[i]),
        from < to ==> !blank(s[from]) && !blank(s[to - 1]),
    ensures
        trimmed(s) == s.subrange(from, to),
{
    lemma_lead(s);
    let start = lead(s) as int;
    if from < to {
        lemma_lead_is(s, from);
    } else {
        lemma_lead_is(s, s.len() as int);
    }
    let t = s.skip(start);
    lemma_trail(t);
    let end = t.len() - trail(t);
    if from < to {
        assert(t[to - from - 1] == s[to - 1]);
        if end < to - from {
            assert(blank(t[to - from - 1]));
        }
        if end > to - from {
            assert(t[end - 1] == s[start + end - 1]);
        }
        assert(t.take(end) =~= s.subrange(from, to));
    } else {
        assert(t.take(end) =~= s.subrange(from, to));
    }
}

/// A text is blank exactly where nothing is left of it once it is trimmed.
pub proof fn lemma_trimmed_blank(s: Seq<char>)
    ensures
        trimmed(s).len() == 0 <==> forall|i: int| 0 <= i < s.len() ==> blank(#[trigger] s[i]),
{
    let (from, to) = law_trimmed(s);
    if from < to {
        assert(!blank(s[from]));
    }
}

/// The words of a text hold no white space, and white space around the text changes none of them.
pub proof fn law_words(a: Seq<char>, s: Seq<char>)
    requires
        forall|i: int| 0 <= i < a.len() ==> blank(#[trigger] a[i]),
    ensures
        forall|i: int, j: int|
            0 <= i < words(s).len() && 0 <= j < words(s)[i].len() ==> !blank(
                #[trigger] words(s)[i][j],
            ),
        forall|i: int| 0 <= i < words(s).len() ==> (#[trigger] words(s)[i]).len() > 0,
        words(a + s) == words(s),
        one_word(s) ==> words(s) == seq![s],
    decreases a.len(),
{
    lemma_words_are_words(s);
    assert forall|i: int, j: int|
        0 <= i < words(s).len() && 0 <= j < words(s)[i].len() implies !blank(
        #[trigger] words(s)[i][j],
    ) by {
        assert(one_word(words(s)[i]));
    }
    let t = a + s;
    lemma_lead(s);
    let n = (a.len() + lead(s)) as int;
    assert forall|i: int| 0 <= i < n implies blank(#[trigger] t[i]) by {
        if i >= a.len() {
            assert(t[i] == s[i - a.len()]);
        }
    }
    lemma_lead_is(t, n);
    assert(t.skip(n) =~= s.skip(lead(s) as int));
    if one_word(s) {
        let one = seq![s];
        assert(one[0] == s);
        lemma_words_joined(one);
        assert(joined(one) =~= s);
    }
}

/// The white space of a terminal: the space, the tabulators and the breaks, and no printable
/// character of ASCII.
pub proof fn law_blank(c: char)
    ensures
        c == ' ' || c == '\t' || c == '\n' || c == '\r' || c == '\u{b}' || c == '\u{c}' ==> blank(c),
        c == '\u{85}' || c == '\u{a0}' || c == '\u{2028}' || c == '\u{2029}' || c == '\u{3000}'
            ==> blank(c),
        '!' <= c <= '~' ==> !blank(c) && !control(c),
        c == '\u{1b}' || c == '\u{7f}' || c == '\u{0}' || c == '\n' || c == '\u{9b}' ==> control(c),
        control(c) && blank(c) ==> c == '\t' || c == '\n' || c == '\u{b}' || c == '\u{c}' || c
            == '\r' || c == '\u{85}',
{
}

/// The first character in which two texts differ decides which comes first, the smaller one; a text
/// comes before every longer one that begins with it.
pub proof fn law_before(p: Seq<char>, c: char, x: Seq<char>, d: char, y: Seq<char>)
    ensures
        c != d ==> (before(p + seq![c] + x, p + seq![d] + y) <==> c < d),
        before(p, p + seq![c] + x),
        !before(p + seq![c] + x, p),
        !before(p, p),
    decreases p.len(),
{
    let a = p + seq![c] + x;
    let b = p + seq![d] + y;
    if p.len() > 0 {
        let q = p.drop_first();
        law_before(q, c, x, d, y);
        assert(a.drop_first() =~= q + seq![c] + x);
        assert(b.drop_first() =~= q + seq![d] + y);
        assert(a[0] == p[0] && b[0] == p[0]);
    } else {
        assert(a[0] == c && b[0] == d);
    }
}

/// How many bytes a character takes in UTF-8.
pub proof fn law_width(c: char)
    ensures
        (c as u32) < 0x80 ==> width(c) == 1,
        0x80 <= (c as u32) < 0x800 ==> width(c) == 2,
        0x800 <= (c as u32) < 0x1_0000 ==> width(c) == 3,
        0x1_0000 <= (c as u32) ==> width(c) == 4,
{
}

} // verus!
