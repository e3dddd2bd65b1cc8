//! Settings as the editor stores them: flags and numbers kept as text per
//! account, the ranges the numbers are held to, and the names of the
//! per-account storage.

use vstd::prelude::*;
use crate::text::{decimal, i32_to_decimal, parse_i32, parse_i32_spec, push_decimal, same_text, signed_decimal};

verus! {

/// A stored flag reads as set exactly when it is the text `true`; a
/// missing one takes the default.
pub open spec fn stored_flag(v: Option<Seq<char>>, default: bool) -> bool {
    match v {
        Some(t) => t == "true"@,
        None => default,
    }
}

/// Reads a stored flag.
pub fn read_flag(v: Option<&str>, default: bool) -> (r: bool)
    ensures
        r == stored_flag(match v {
            Some(t) => Some(t@),
            None => None,
        }, default),
{
    match v {
        Some(t) => same_text(t, "true"),
        None => default,
    }
}

/// The text a flag is stored as.
pub fn flag_text(b: bool) -> (r: &'static str)
    ensures
        r@ == (if b { "true"@ } else { "false"@ }),
{
    if b { "true" } else { "false" }
}

/// A stored number: the text read as an `i32`, or the default when it is
/// missing or not a number.
pub open spec fn stored_number(v: Option<Seq<char>>, default: i32) -> i32 {
    match v {
        Some(t) => match parse_i32_spec(t) {
            Some(n) => n,
            None => default,
        },
        None => default,
    }
}

/// Reads a stored number.
pub fn read_number(v: Option<&str>, default: i32) -> (r: i32)
    ensures
        r == stored_number(match v {
            Some(t) => Some(t@),
            None => None,
        }, default),
{
    match v {
        Some(t) => match parse_i32(t) {
            Some(n) => n,
            None => default,
        },
        None => default,
    }
}

/// The text a number is stored as.
pub fn number_text(n: i32) -> (r: String)
    ensures
        r@ == signed_decimal(n as int),
{
    i32_to_decimal(n)
}

/// Storing a flag and reading it back gives the flag.
pub proof fn lemma_flag_round_trip(b: bool, default: bool)
    ensures
        stored_flag(Some(if b { "true"@ } else { "false"@ }), default) == b,
{
    reveal_strlit("true");
    reveal_strlit("false");
    assert("false"@.len() != "true"@.len());
}

/// Storing a number and reading it back gives the number.
pub proof fn lemma_number_round_trip(n: i32, default: i32)
    ensures
        stored_number(Some(signed_decimal(n as int)), default) == n,
{
    crate::text::lemma_parse_i32_decimal(n);
}

/// The preview font size after a step of `delta`, held between 8 and 72.
pub open spec fn stepped_font_size(current: i32, delta: i32) -> i32 {
    let n = current + delta;
    if n > 72 { 72 } else if n < 8 { 8 } else { n as i32 }
}

/// Steps the preview font size (`max(8, min(72, current + delta))`).
pub fn step_preview_font_size(current: i32, delta: i32) -> (r: i32)
    requires
        i32::MIN <= current + delta <= i32::MAX,
    ensures
        r == stepped_font_size(current, delta),
        8 <= r <= 72,
{
    let n = current + delta;
    if n > 72 { 72 } else if n < 8 { 8 } else { n }
}

/// The window opacity in percent, held between 50 and 100.
pub fn window_opacity_percent(v: i32) -> (r: i32)
    ensures
        r == (if v < 50 { 50 } else if v > 100 { 100 } else { v }),
{
    if v < 50 { 50 } else if v > 100 { 100 } else { v }
}

/// The window blur in percent, held between 0 and 100.
pub fn window_blur_percent(v: i32) -> (r: i32)
    ensures
        r == (if v < 0 { 0 } else if v > 100 { 100 } else { v }),
{
    if v < 0 { 0 } else if v > 100 { 100 } else { v }
}

/// The key a setting is stored under for the signed-in account: the base
/// key, then `_` and the e-mail address when there is one.
pub open spec fn account_key(base: Seq<char>, email: Option<Seq<char>>) -> Seq<char> {
    match email {
        Some(e) => if e.len() > 0 { base + "_"@ + e } else { base },
        None => base,
    }
}

/// Builds the per-account storage key.
pub fn account_key_for(base: &str, email: Option<&str>) -> (r: String)
    ensures
        r@ == account_key(base@, match email {
            Some(e) => Some(e@),
            None => None,
        }),
{
    let mut k = base.to_owned();
    match email {
        Some(e) => {
            if e.unicode_len() > 0 {
                k.append("_");
                k.append(e);
            }
        },
        None => {},
    }
    k
}

/// The name of the account's local database: `LeafDB`, then `_` and the
/// e-mail address when there is one.
pub fn account_db_name_for(email: Option<&str>) -> (r: String)
    ensures
        r@ == account_key("LeafDB"@, match email {
            Some(e) => Some(e@),
            None => None,
        }),
{
    account_key_for("LeafDB", email)
}

/// A tab colour: `hsl(h, s%, l%)`.
pub open spec fn hsl_text(h: u32, s: u32, l: u32) -> Seq<char> {
    "hsl("@ + decimal(h as nat) + ", "@ + decimal(s as nat) + "%, "@ + decimal(l as nat) + "%)"@
}

/// Writes a tab colour from its hue, saturation and lightness.
pub fn hsl_color(h: u32, s: u32, l: u32) -> (r: String)
    ensures
        r@ == hsl_text(h, s, l),
{
    let mut t = "hsl(".to_owned();
    push_decimal(&mut t, h as u64);
    t.append(", ");
    push_decimal(&mut t, s as u64);
    t.append("%, ");
    push_decimal(&mut t, l as u64);
    t.append("%)");
    t
}

} // verus!
