//! Rendering a command result as the text payload of a response.

use vstd::prelude::*;

use crate::commands::CommandResult;
use crate::model::{dec_rep, digit_char, render};

verus! {

/// The decimal rendering of an unsigned integer.
pub fn u64_to_decimal(n: u64) -> (out: String)
    ensures
        out@ == dec_rep(n as nat),
    decreases n,
{
    if n < 10 {
        digit_str(n).to_owned()
    } else {
        let mut out = u64_to_decimal(n / 10);
        out.append(digit_str(n % 10));
        proof {
            assert(out@ =~= dec_rep(n as nat));
        }
        out
    }
}

/// The one-character string for a decimal digit.
fn digit_str(d: u64) -> (out: &'static str)
    requires
        d < 10,
    ensures
        out@ == seq![digit_char(d as nat)],
{
    proof {
        reveal_strlit("0");
        reveal_strlit("1");
        reveal_strlit("2");
        reveal_strlit("3");
        reveal_strlit("4");
        reveal_strlit("5");
        reveal_strlit("6");
        reveal_strlit("7");
        reveal_strlit("8");
        reveal_strlit("9");
    }
    if d == 0 {
        "0"
    } else if d == 1 {
        "1"
    } else if d == 2 {
        "2"
    } else if d == 3 {
        "3"
    } else if d == 4 {
        "4"
    } else if d == 5 {
        "5"
    } else if d == 6 {
        "6"
    } else if d == 7 {
        "7"
    } else if d == 8 {
        "8"
    } else {
        "9"
    }
}

/// Renders a result the way the operator sees it: the string itself, the
/// decimal digits, `true`/`false`, `nil`, or the message behind an
/// `Error: ` prefix.
pub fn render_result(result: &CommandResult) -> (out: String)
    ensures
        out@ == render(result@),
{
    match result {
        CommandResult::String(s) => s.clone(),
        CommandResult::Int(n) => u64_to_decimal(*n),
        CommandResult::Bool(b) => if *b {
            "true".to_owned()
        } else {
            "false".to_owned()
        },
        CommandResult::Nil => "nil".to_owned(),
        CommandResult::Error(m) => {
            let mut out = "Error: ".to_owned();
            out.append(m.as_str());
            out
        },
    }
}

} // verus!
