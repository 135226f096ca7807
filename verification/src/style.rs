//! Terminal colours: ANSI escape sequences around a text, when colour is on.
//!
//! Whether colour is on (the `NO_COLOR` variable is unset) is read by the
//! caller and handed in as `enabled`.

use vstd::prelude::*;
use crate::text::concat3;

verus! {

/// `text` wrapped in the ANSI sequence `code` when `enabled`, else `text` itself.
pub open spec fn paint_spec(code: Seq<char>, text: Seq<char>, enabled: bool) -> Seq<char> {
    if enabled {
        "\x1b["@ + code + "m"@ + text + "\x1b[0m"@
    } else {
        text
    }
}

pub fn paint(code: &str, text: &str, enabled: bool) -> (r: String)
    ensures
        r@ == paint_spec(code@, text@, enabled),
{
    if enabled {
        let mut r = concat3("\x1b[", code, "m");
        r.append(text);
        r.append("\x1b[0m");
        r
    } else {
        String::from_str(text)
    }
}

pub fn green(text: &str, enabled: bool) -> (r: String)
    ensures
        r@ == paint_spec("32"@, text@, enabled),
{
    paint("32", text, enabled)
}

pub fn red(text: &str, enabled: bool) -> (r: String)
    ensures
        r@ == paint_spec("31"@, text@, enabled),
{
    paint("31", text, enabled)
}

pub fn yellow(text: &str, enabled: bool) -> (r: String)
    ensures
        r@ == paint_spec("33"@, text@, enabled),
{
    paint("33", text, enabled)
}

pub fn bold(text: &str, enabled: bool) -> (r: String)
    ensures
        r@ == paint_spec("1"@, text@, enabled),
{
    paint("1", text, enabled)
}

pub fn dim(text: &str, enabled: bool) -> (r: String)
    ensures
        r@ == paint_spec("2"@, text@, enabled),
{
    paint("2", text, enabled)
}

} // verus!
