//! MindGate's visual identity for the command line: raw ANSI colouring,
//! applied only when colour is enabled (see https://no-color.org; the
//! caller decides from `NO_COLOR` and whether stdout is a terminal).

use vstd::prelude::*;

verus! {

pub const BOLD_PINK: &'static str = "\x1b[1;38;5;213m";
pub const DIM: &'static str = "\x1b[2m";
pub const GREEN: &'static str = "\x1b[32m";
pub const RED: &'static str = "\x1b[31m";
pub const YELLOW: &'static str = "\x1b[33m";
pub const RESET: &'static str = "\x1b[0m";

/// The marks put before success, warning and error messages.
pub const OK_MARK: &'static str = "\u{2713} ";
pub const WARN_MARK: &'static str = "\u{26a0} ";
pub const ERR_MARK: &'static str = "\u{2717} ";

/// `text` between the colour code `code` and the reset code when colour is
/// enabled; `text` alone otherwise.
pub open spec fn styled(code: Seq<char>, text: Seq<char>, color: bool) -> Seq<char> {
    if color {
        code + text + RESET@
    } else {
        text
    }
}

fn paint(code: &str, text: &str, color: bool) -> (res: String)
    ensures
        res@ == styled(code@, text@, color),
{
    if color {
        let mut out = String::from_str(code);
        out.append(text);
        out.append(RESET);
        out
    } else {
        String::from_str(text)
    }
}

fn marked(mark: &str, s: &str) -> (res: String)
    ensures
        res@ == mark@ + s@,
{
    let mut out = String::from_str(mark);
    out.append(s);
    out
}

/// Headings.
pub fn bold_pink(s: &str, color: bool) -> (res: String)
    ensures
        res@ == styled(BOLD_PINK@, s@, color),
{
    paint(BOLD_PINK, s, color)
}

/// Hints.
pub fn dim(s: &str, color: bool) -> (res: String)
    ensures
        res@ == styled(DIM@, s@, color),
{
    paint(DIM, s, color)
}

/// Success: a check mark, in green.
pub fn ok(s: &str, color: bool) -> (res: String)
    ensures
        res@ == styled(GREEN@, OK_MARK@ + s@, color),
{
    let m = marked(OK_MARK, s);
    paint(GREEN, m.as_str(), color)
}

/// Warnings: a warning sign, in yellow.
pub fn warn(s: &str, color: bool) -> (res: String)
    ensures
        res@ == styled(YELLOW@, WARN_MARK@ + s@, color),
{
    let m = marked(WARN_MARK, s);
    paint(YELLOW, m.as_str(), color)
}

/// Errors: a cross, in red.
pub fn err(s: &str, color: bool) -> (res: String)
    ensures
        res@ == styled(RED@, ERR_MARK@ + s@, color),
{
    let m = marked(ERR_MARK, s);
    paint(RED, m.as_str(), color)
}

} // verus!
