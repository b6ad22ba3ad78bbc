//! Naming pasted clipboard images: a PNG saved into the notebook's
//! attachments folder as `pasted-YYYYmmdd-HHMMSS.png` (with `-2`, `-3`, …
//! on a same-second collision instead of an overwrite) and the markdown
//! link inserted for it, relative to the notebook root. Writing the file is
//! the application's.
use vstd::prelude::*;
use chrono::{Datelike, Timelike};
use crate::text::{chars_of, push_all, push_decimal, push_str, push_two_digits, spec_decimal, spec_trim, spec_two_digits, string_of, trim};
use crate::types::{spec_year, format_year};

verus! {

broadcast use vstd::string::group_string_axioms;

/// A local wall-clock time, to the second.
#[derive(Debug, Clone, Copy, PartialEq, Eq, Structural)]
pub struct LocalTime {
    pub year: i32,
    pub month: u32,
    pub day: u32,
    pub hour: u32,
    pub minute: u32,
    pub second: u32,
}

/// Wrapper over chrono's `Local::now()`: the local time when called, in
/// the ranges chrono documents for its fields.
#[verifier::external_body]
fn local_now() -> (t: LocalTime)
    ensures
        1 <= t.month <= 12,
        1 <= t.day <= 31,
        t.hour < 24,
        t.minute < 60,
        t.second < 60,
{
    let now = chrono::Local::now();
    LocalTime {
        year: now.year(),
        month: now.month(),
        day: now.day(),
        hour: now.hour(),
        minute: now.minute(),
        second: now.second(),
    }
}

/// The stem of a pasted image's file: `pasted-` and the time as
/// `%Y%m%d-%H%M%S`.
pub open spec fn spec_pasted_stem(t: LocalTime) -> Seq<char> {
    "pasted-"@ + spec_year(t.year as int) + spec_two_digits(t.month as nat) + spec_two_digits(t.day as nat)
        + seq!['-'] + spec_two_digits(t.hour as nat) + spec_two_digits(t.minute as nat) + spec_two_digits(
        t.second as nat,
    )
}

pub fn pasted_stem(t: LocalTime) -> (s: String)
    ensures
        s@ == spec_pasted_stem(t),
{
    let mut v = chars_of("pasted-");
    let y = format_year(t.year);
    push_all(&mut v, &chars_of(y.as_str()));
    push_two_digits(&mut v, t.month as usize);
    push_two_digits(&mut v, t.day as usize);
    v.push('-');
    push_two_digits(&mut v, t.hour as usize);
    push_two_digits(&mut v, t.minute as usize);
    push_two_digits(&mut v, t.second as usize);
    assert(v@ =~= spec_pasted_stem(t));
    string_of(&v)
}

/// The stem for an image pasted now: `pasted-` and the local time as
/// `%Y%m%d-%H%M%S`, whatever that time is.
pub fn pasted_stem_now() -> (s: String)
    ensures
        exists|t: LocalTime|
            1 <= t.month <= 12 && 1 <= t.day <= 31 && t.hour < 24 && t.minute < 60 && t.second < 60
                && s@ == spec_pasted_stem(t),
{
    pasted_stem(local_now())
}

/// The `n`-th candidate file name for a stem: `stem.png` first, then
/// `stem-2.png`, `stem-3.png`, ….
pub open spec fn spec_candidate_name(stem: Seq<char>, n: nat) -> Seq<char> {
    if n <= 1 {
        stem + ".png"@
    } else {
        stem + seq!['-'] + spec_decimal(n) + ".png"@
    }
}

pub fn candidate_name(stem: &str, n: usize) -> (s: String)
    ensures
        s@ == spec_candidate_name(stem@, n as nat),
{
    let mut v = chars_of(stem);
    if n > 1 {
        v.push('-');
        push_decimal(&mut v, n);
    }
    push_str(&mut v, ".png");
    string_of(&v)
}

/// The markdown link inserted for an image saved as `file_name` in the
/// attachments folder `dir`: relative to the notebook root, so it resolves
/// to the saved file from any note.
pub open spec fn spec_image_link(dir: Seq<char>, stem: Seq<char>, file_name: Seq<char>) -> Seq<char> {
    "!["@ + stem + "]("@ + dir + "/"@ + file_name + ")"@
}

pub fn image_link(dir: &str, stem: &str, file_name: &str) -> (s: String)
    ensures
        s@ == spec_image_link(dir@, stem@, file_name@),
{
    let mut v = chars_of("![");
    push_all(&mut v, &chars_of(stem));
    push_str(&mut v, "](");
    push_all(&mut v, &chars_of(dir));
    push_str(&mut v, "/");
    push_all(&mut v, &chars_of(file_name));
    push_str(&mut v, ")");
    string_of(&v)
}

/// The attachments folder: the configured name, trimmed, or `default`
/// when that leaves nothing.
pub fn attachments_dir_name(configured: &str, default: &str) -> (s: String)
    ensures
        s@ == if spec_trim(configured@).len() == 0 {
            default@
        } else {
            spec_trim(configured@)
        },
{
    let t = trim(&chars_of(configured));
    if t.len() == 0 {
        string_of(&chars_of(default))
    } else {
        string_of(&t)
    }
}

} // verus!
