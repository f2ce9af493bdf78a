//! Interpreting the arguments of the document-format commands.
//!
//! Changing a document's line ending or indentation rewrites its text,
//! which is the surrounding editor's work; what the interpreter owns is
//! reading the argument: which line ending or indentation style it names,
//! and the label the status line shows for the current one.

use vstd::prelude::*;
use vstd::string::StringSliceAdditionalSpecFns;
use crate::bytes;

verus! {

/// A document's line ending.
#[derive(Clone, Copy, Debug, PartialEq, Eq, Structural)]
pub enum LineEnding {
    /// Carriage return followed by line feed.
    Crlf,
    /// Line feed alone.
    Lf,
}

/// A document's indentation style.
#[derive(Clone, Copy, Debug, PartialEq, Eq, Structural)]
pub enum IndentStyle {
    Tabs,
    Spaces(u8),
}

/// The widest space indentation a document may declare.
pub const MAX_INDENT: u8 = 16;

/// The line ending an argument names: a word beginning with `crlf` or
/// with `lf`, case-insensitively; anything else names none.
pub open spec fn spec_line_ending_of(arg: Seq<u8>) -> Option<LineEnding> {
    let lowered = bytes::spec_lower(arg);
    if bytes::spec_is_prefix("crlf".spec_bytes(), lowered) {
        Some(LineEnding::Crlf)
    } else if bytes::spec_is_prefix("lf".spec_bytes(), lowered) {
        Some(LineEnding::Lf)
    } else {
        None
    }
}

/// Reads a line-ending argument.
pub fn parse_line_ending(arg: &[u8]) -> (r: Option<LineEnding>)
    ensures
        r == spec_line_ending_of(arg@),
{
    let lowered = bytes::to_ascii_lower(arg);
    if bytes::is_prefix("crlf".as_bytes(), lowered.as_slice()) {
        Some(LineEnding::Crlf)
    } else if bytes::is_prefix("lf".as_bytes(), lowered.as_slice()) {
        Some(LineEnding::Lf)
    } else {
        None
    }
}

/// The status label of a line ending.
pub fn line_ending_label(e: LineEnding) -> (r: Vec<u8>)
    ensures
        e == LineEnding::Crlf ==> r@ == "crlf".spec_bytes(),
        e == LineEnding::Lf ==> r@ == "line feed".spec_bytes(),
{
    let mut r: Vec<u8> = Vec::new();
    match e {
        LineEnding::Crlf => bytes::extend_str(&mut r, "crlf"),
        LineEnding::Lf => bytes::extend_str(&mut r, "line feed"),
    }
    r
}

/// The indentation style an argument names: any prefix of `tabs` (case-
/// insensitively) or `0` names tabs; a count of one to [`MAX_INDENT`]
/// names that many spaces; anything else names none.
pub open spec fn spec_indent_style_of(arg: Seq<u8>) -> Option<IndentStyle> {
    let lowered = bytes::spec_lower(arg);
    if bytes::spec_is_prefix(lowered, "tabs".spec_bytes()) || arg == "0".spec_bytes() {
        Some(IndentStyle::Tabs)
    } else if bytes::all_digits(arg) && 1 <= bytes::spec_digits_value(arg)
        && bytes::spec_digits_value(arg) <= MAX_INDENT {
        Some(IndentStyle::Spaces(bytes::spec_digits_value(arg) as u8))
    } else {
        None
    }
}

/// Reads an indent-style argument.
pub fn parse_indent_style(arg: &[u8]) -> (r: Option<IndentStyle>)
    ensures
        r == spec_indent_style_of(arg@),
{
    let lowered = bytes::to_ascii_lower(arg);
    if bytes::is_prefix(lowered.as_slice(), "tabs".as_bytes()) || bytes::bytes_eq(
        arg,
        "0".as_bytes(),
    ) {
        return Some(IndentStyle::Tabs);
    }
    if !bytes::is_all_digits(arg) {
        return None;
    }
    match bytes::parse_usize(arg) {
        Some(n) => {
            if 1 <= n && n <= MAX_INDENT as usize {
                Some(IndentStyle::Spaces(n as u8))
            } else {
                None
            }
        },
        None => None,
    }
}

/// The status label of an indentation style: `tabs`, `1 space`, or the
/// count followed by `spaces`.
pub fn indent_style_label(style: IndentStyle) -> (r: Vec<u8>)
    ensures
        ({
            match style {
                IndentStyle::Tabs => r@ == "tabs".spec_bytes(),
                IndentStyle::Spaces(n) => if n == 1 {
                    r@ == "1 space".spec_bytes()
                } else {
                    r@ == bytes::spec_decimal(n as nat) + " spaces".spec_bytes()
                },
            }
        }),
{
    let mut r: Vec<u8> = Vec::new();
    match style {
        IndentStyle::Tabs => bytes::extend_str(&mut r, "tabs"),
        IndentStyle::Spaces(n) => {
            if n == 1 {
                bytes::extend_str(&mut r, "1 space");
            } else {
                let d = bytes::decimal_u64(n as u64);
                bytes::extend(&mut r, d.as_slice());
                bytes::extend_str(&mut r, " spaces");
            }
        },
    }
    r
}

} // verus!
