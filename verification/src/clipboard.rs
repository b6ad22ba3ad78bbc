//! Copying to the terminal's clipboard with an OSC 52 escape sequence:
//! written to standard output, it reaches the real terminal underneath the
//! alternate screen, which sets the system clipboard — locally or over SSH
//! alike. Writing the sequence out is the application's; this module
//! builds it.
use vstd::prelude::*;
use base64::Engine;
use vstd::string::StringSliceAdditionalSpecFns;
use crate::text::{chars_of, push_all, push_str, string_of};

verus! {

broadcast use vstd::string::group_string_axioms;

/// The character of the RFC 4648 base64 alphabet for the six-bit value `v`.
pub open spec fn base64_digit(v: int) -> char {
    if v < 26 {
        ('A' as int + v) as char
    } else if v < 52 {
        ('a' as int + (v - 26)) as char
    } else if v < 62 {
        ('0' as int + (v - 52)) as char
    } else if v == 62 {
        '+'
    } else {
        '/'
    }
}

/// Standard base64 with padding (RFC 4648), as the base64 crate's
/// `STANDARD` engine writes it: every three bytes become four characters,
/// and a last group of one or two bytes is padded with `=` to four.
pub open spec fn spec_base64_standard(b: Seq<u8>) -> Seq<char>
    decreases b.len(),
{
    if b.len() == 0 {
        Seq::empty()
    } else if b.len() == 1 {
        seq![base64_digit((b[0] as int) / 4), base64_digit(((b[0] as int) % 4) * 16), '=', '=']
    } else if b.len() == 2 {
        seq![
            base64_digit((b[0] as int) / 4),
            base64_digit(((b[0] as int) % 4) * 16 + (b[1] as int) / 16),
            base64_digit(((b[1] as int) % 16) * 4),
            '=',
        ]
    } else {
        seq![
            base64_digit((b[0] as int) / 4),
            base64_digit(((b[0] as int) % 4) * 16 + (b[1] as int) / 16),
            base64_digit(((b[1] as int) % 16) * 4 + (b[2] as int) / 64),
            base64_digit((b[2] as int) % 64),
        ] + spec_base64_standard(b.skip(3))
    }
}

/// Wrapper over `base64::engine::general_purpose::STANDARD.encode`: the
/// standard alphabet with padding (see `spec_base64_standard`). The crate
/// panics when the encoded length overflows `usize`, which the bound on the
/// input rules out.
#[verifier::external_body]
fn base64_standard(bytes: &[u8]) -> (s: String)
    requires
        bytes@.len() <= usize::MAX / 2,
    ensures
        s@ == spec_base64_standard(bytes@),
{
    base64::engine::general_purpose::STANDARD.encode(bytes)
}

/// The OSC 52 sequence setting the clipboard to `text`: `ESC ] 52 ; c ;`,
/// the UTF-8 bytes of `text` in standard base64, then `BEL`.
pub open spec fn spec_osc52(text: &str) -> Seq<char> {
    "\x1b]52;c;"@ + spec_base64_standard(text.spec_bytes()) + "\x07"@
}

/// Builds the OSC 52 sequence that copies `text` (see `spec_osc52`).
pub fn osc52_sequence(text: &str) -> (s: String)
    requires
        text.spec_bytes().len() <= usize::MAX / 2,
    ensures
        s@ == spec_osc52(text),
{
    let encoded = base64_standard(text.as_bytes());
    let mut v = chars_of("\x1b]52;c;");
    push_all(&mut v, &chars_of(encoded.as_str()));
    push_str(&mut v, "\x07");
    string_of(&v)
}

} // verus!
