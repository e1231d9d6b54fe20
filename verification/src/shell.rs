//! The operator line protocol: tokens in, a typed command out.
//!
//! A line names a verb and its arguments; the verb is matched without
//! regard to ASCII case. The shell around this module splits the line
//! into tokens and dispatches the parsed command to a connected peer.

use vstd::prelude::*;
use vstd::string::StrSliceExecFns;

use crate::commands::{
    Command, CommandView, GenericCommand, GenericCommandView, StringCommand, StringCommandView,
};

verus! {

/// What an operator line asks for: a command to dispatch, or one of the
/// two logging toggles handled locally.
#[derive(Debug)]
pub enum ShellAction {
    Dispatch(Command),
    EnablePingingOutput,
    DisablePingingOutput,
}

/// The mathematical value of a `ShellAction`.
pub enum ShellActionView {
    Dispatch(CommandView),
    EnablePingingOutput,
    DisablePingingOutput,
}

/// Ways an operator line can be refused. No state changes on any of
/// them; the shell prints a usage hint.
#[derive(Debug, PartialEq, Eq, Structural)]
pub enum ShellError {
    EmptyInput,
    UnknownCommand,
    MissingArguments,
}

impl View for ShellAction {
    type V = ShellActionView;

    open spec fn view(&self) -> ShellActionView {
        match self {
            ShellAction::Dispatch(c) => ShellActionView::Dispatch(c@),
            ShellAction::EnablePingingOutput => ShellActionView::EnablePingingOutput,
            ShellAction::DisablePingingOutput => ShellActionView::DisablePingingOutput,
        }
    }
}

/// Whether character `a`, lowered if it is an ASCII capital, is
/// character `b`.
pub open spec fn lower_char_matches(a: char, b: char) -> bool {
    a as u32 == b as u32 || (65 <= a as u32 && a as u32 <= 90 && b as u32 == a as u32 + 32)
}

/// Whether a verb token spells `expected` regardless of ASCII case;
/// `expected` is always one of the lower-case verbs of the table.
pub open spec fn verb_matches(verb: Seq<char>, expected: Seq<char>) -> bool {
    verb.len() == expected.len() && (forall|i: int|
        0 <= i < verb.len() ==> lower_char_matches(verb[i], #[trigger] expected[i]))
}

/// What a token list parses to: the verb table of the line protocol.
/// `get`, `set` and `append` take a key (and a value); `exists` and
/// `del` take one or more keys, the rest of the line; the two toggle
/// verbs take nothing. A missing verb, an unknown verb, and missing
/// arguments are each refused.
pub open spec fn parse_line_spec(ts: Seq<Seq<char>>) -> Result<ShellActionView, ShellError> {
    if ts.len() == 0 {
        Err(ShellError::EmptyInput)
    } else if verb_matches(ts[0], "get"@) {
        if ts.len() >= 2 {
            Ok(
                ShellActionView::Dispatch(
                    CommandView::String(StringCommandView::Get { key: ts[1] }),
                ),
            )
        } else {
            Err(ShellError::MissingArguments)
        }
    } else if verb_matches(ts[0], "set"@) {
        if ts.len() >= 3 {
            Ok(
                ShellActionView::Dispatch(
                    CommandView::String(StringCommandView::Put { key: ts[1], value: ts[2] }),
                ),
            )
        } else {
            Err(ShellError::MissingArguments)
        }
    } else if verb_matches(ts[0], "append"@) {
        if ts.len() >= 3 {
            Ok(
                ShellActionView::Dispatch(
                    CommandView::String(StringCommandView::Append { key: ts[1], value: ts[2] }),
                ),
            )
        } else {
            Err(ShellError::MissingArguments)
        }
    } else if verb_matches(ts[0], "exists"@) {
        if ts.len() >= 2 {
            Ok(
                ShellActionView::Dispatch(
                    CommandView::Generic(GenericCommandView::Exists { keys: ts.skip(1) }),
                ),
            )
        } else {
            Err(ShellError::MissingArguments)
        }
    } else if verb_matches(ts[0], "del"@) {
        if ts.len() >= 2 {
            Ok(
                ShellActionView::Dispatch(
                    CommandView::Generic(GenericCommandView::Delete { keys: ts.skip(1) }),
                ),
            )
        } else {
            Err(ShellError::MissingArguments)
        }
    } else if verb_matches(ts[0], "enable_pinging_output"@) {
        Ok(ShellActionView::EnablePingingOutput)
    } else if verb_matches(ts[0], "disable_pinging_output"@) {
        Ok(ShellActionView::DisablePingingOutput)
    } else {
        Err(ShellError::UnknownCommand)
    }
}

/// Parses one operator line, already split into whitespace-separated
/// tokens, into the action it asks for.
pub fn parse_operator_command(tokens: &Vec<String>) -> (result: Result<ShellAction, ShellError>)
    ensures
        (match result {
            Ok(action) => parse_line_spec(tokens.deep_view()) == Ok::<ShellActionView, ShellError>(
                action@,
            ),
            Err(e) => parse_line_spec(tokens.deep_view()) == Err::<ShellActionView, ShellError>(e),
        }),
{
    if tokens.len() == 0 {
        return Err(ShellError::EmptyInput);
    }
    let verb = tokens[0].as_str();
    if verb_matches_token(verb, "get") {
        if tokens.len() >= 2 {
            Ok(
                ShellAction::Dispatch(
                    Command::String(StringCommand::Get { key: tokens[1].clone() }),
                ),
            )
        } else {
            Err(ShellError::MissingArguments)
        }
    } else if verb_matches_token(verb, "set") {
        if tokens.len() >= 3 {
            Ok(
                ShellAction::Dispatch(
                    Command::String(
                        StringCommand::Put { key: tokens[1].clone(), value: tokens[2].clone() },
                    ),
                ),
            )
        } else {
            Err(ShellError::MissingArguments)
        }
    } else if verb_matches_token(verb, "append") {
        if tokens.len() >= 3 {
            Ok(
                ShellAction::Dispatch(
                    Command::String(
                        StringCommand::Append { key: tokens[1].clone(), value: tokens[2].clone() },
                    ),
                ),
            )
        } else {
            Err(ShellError::MissingArguments)
        }
    } else if verb_matches_token(verb, "exists") {
        if tokens.len() >= 2 {
            Ok(
                ShellAction::Dispatch(
                    Command::Generic(GenericCommand::Exists { keys: clone_tail(tokens) }),
                ),
            )
        } else {
            Err(ShellError::MissingArguments)
        }
    } else if verb_matches_token(verb, "del") {
        if tokens.len() >= 2 {
            Ok(
                ShellAction::Dispatch(
                    Command::Generic(GenericCommand::Delete { keys: clone_tail(tokens) }),
                ),
            )
        } else {
            Err(ShellError::MissingArguments)
        }
    } else if verb_matches_token(verb, "enable_pinging_output") {
        Ok(ShellAction::EnablePingingOutput)
    } else if verb_matches_token(verb, "disable_pinging_output") {
        Ok(ShellAction::DisablePingingOutput)
    } else {
        Err(ShellError::UnknownCommand)
    }
}

/// Whether a verb token spells `expected` regardless of ASCII case.
fn verb_matches_token(verb: &str, expected: &str) -> (r: bool)
    ensures
        r == verb_matches(verb@, expected@),
{
    let n = verb.unicode_len();
    if n != expected.unicode_len() {
        return false;
    }
    let mut i: usize = 0;
    while i < n
        invariant
            n == verb@.len(),
            n == expected@.len(),
            i <= n,
            forall|j: int| 0 <= j < i ==> lower_char_matches(verb@[j], #[trigger] expected@[j]),
        decreases n - i,
    {
        let a = verb.get_char(i) as u32;
        let b = expected.get_char(i) as u32;
        if !(a == b || (65 <= a && a <= 90 && b == a + 32)) {
            return false;
        }
        i += 1;
    }
    true
}

/// Clones every token after the verb: the key list of `exists` and
/// `del`.
fn clone_tail(tokens: &Vec<String>) -> (keys: Vec<String>)
    requires
        tokens@.len() >= 1,
    ensures
        keys.deep_view() == tokens.deep_view().skip(1),
{
    let mut keys: Vec<String> = Vec::new();
    let mut i: usize = 1;
    while i < tokens.len()
        invariant
            1 <= i <= tokens.len(),
            keys@.len() == i - 1,
            forall|j: int| 0 <= j < i - 1 ==> #[trigger] keys@[j]@ == tokens@[j + 1]@,
        decreases tokens.len() - i,
    {
        keys.push(tokens[i].clone());
        i += 1;
    }
    assert(keys.deep_view() =~~= tokens.deep_view().skip(1));
    keys
}

} // verus!
