//! Copying to the clipboard of the terminal.
use base64::Engine;
use vstd::prelude::*;
use vstd::string::*;
use crate::text;
use crate::text::{byte_len, cat3};

verus! {

/// The bytes that an encoded selection may have.
pub const ENCODED_BYTES: usize = 32768;

/// The bytes that can be copied at all.
pub const COPY_BYTES: usize = 4194304;

/// What came of copying.
#[derive(Debug)]
pub struct Delivery {
    pub status: String,
    /// What is sent to the terminal.
    pub osc: Option<String>,
}

/// A text in base64.
pub uninterp spec fn base64_text(s: Seq<char>) -> Seq<char>;

/// `Engine::encode` of the standard base64 engine, on the bytes of a text: the encoding depends on
/// the text alone, and has four characters for every three bytes begun.
#[verifier::external_body]
fn encode(s: &str) -> (r: String)
    requires
        text::size(s@) <= COPY_BYTES,
    ensures
        r@ == base64_text(s@),
        r@.len() == encoded_length(text::size(s@) as int),
{
    base64::engine::general_purpose::STANDARD.encode(s)
}

/// The characters of the encoding of some bytes.
pub open spec fn encoded_length(n: int) -> int {
    (n + 2) / 3 * 4
}

/// What is said of a selection that cannot be copied.
pub open spec fn too_large() -> Seq<char> {
    "Copy failed: native clipboard unavailable; selection exceeds OSC52's 32 KiB encoded limit"@
}

/// Asks the terminal to copy a text. Whether it does is never claimed.
pub fn osc52(s: &str) -> (r: Delivery)
    ensures
        if encoded_length(text::size(s@) as int) > ENCODED_BYTES {
            r.status@ == too_large() && r.osc is None
        } else {
            &&& r.status@ == "OSC52 copy requested; terminal delivery is unverified"@
            &&& r.osc matches Some(o) && o@ == "\x1b]52;c;"@ + base64_text(s@) + "\x07"@
        },
{
    let n: usize = byte_len(s);
    if n > 24576 {
        proof {
            assert(encoded_length(n as int) > ENCODED_BYTES);
        }
        return Delivery {
            status:
                "Copy failed: native clipboard unavailable; selection exceeds OSC52's 32 KiB encoded limit".to_owned(),
            osc: None,
        };
    }
    proof {
        assert(encoded_length(n as int) <= ENCODED_BYTES);
    }
    Delivery {
        status: "OSC52 copy requested; terminal delivery is unverified".to_owned(),
        osc: Some(cat3("\x1b]52;c;", encode(s).as_str(), "\x07")),
    }
}

/// What is said once a helper has copied a text and given it back.
pub fn verified(program: &str) -> (r: Delivery)
    ensures
        r.status@ == "Copied and verified via "@ + program@,
        r.osc is None,
{
    Delivery { status: text::cat2("Copied and verified via ", program), osc: None }
}

/// What comes of copying a text: the first of `wl-copy` and `xclip` that copied it and gave it back
/// unchanged counts, and where neither did, the terminal is asked.
pub fn copied(s: &str, wayland: bool, x11: bool) -> (r: Delivery)
    ensures
        wayland ==> r.status@ == "Copied and verified via "@ + "wl-copy"@ && r.osc is None,
        !wayland && x11 ==> r.status@ == "Copied and verified via "@ + "xclip"@ && r.osc is None,
        !wayland && !x11 ==> if encoded_length(text::size(s@) as int) > ENCODED_BYTES {
            r.status@ == too_large() && r.osc is None
        } else {
            &&& r.status@ == "OSC52 copy requested; terminal delivery is unverified"@
            &&& r.osc matches Some(o) && o@ == "\x1b]52;c;"@ + base64_text(s@) + "\x07"@
        },
{
    if wayland {
        verified("wl-copy")
    } else if x11 {
        verified("xclip")
    } else {
        osc52(s)
    }
}

/// Whether what a helper gave back is what it was given.
pub fn same_readback(s: &str, bytes: &[u8]) -> (r: bool)
    ensures
        r == (bytes@ == vstd::utf8::encode_utf8(s@)),
{
    let given = s.as_bytes();
    if given.len() != bytes.len() {
        return false;
    }
    let mut i: usize = 0;
    while i < bytes.len()
        invariant
            i <= bytes@.len(),
            given@.len() == bytes@.len(),
            given@ == vstd::utf8::encode_utf8(s@),
            forall|j: int| 0 <= j < i ==> given@[j] == bytes@[j],
        decreases bytes@.len() - i,
    {
        if given[i] != bytes[i] {
            return false;
        }
        i += 1;
    }
    proof {
        assert(given@ =~= bytes@);
    }
    true
}

/// Every three bytes take four characters of the encoding, and so does what is left over.
pub proof fn law_encoded_length(n: int)
    requires
        0 <= n,
    ensures
        encoded_length(0) == 0,
        encoded_length(n + 3) == encoded_length(n) + 4,
        encoded_length(1) == 4 && encoded_length(2) == 4 && encoded_length(3) == 4,
        encoded_length(n) <= encoded_length(n + 1),
        encoded_length(n) <= 32 * 1024 <==> n <= 24576,
{
}

} // verus!
