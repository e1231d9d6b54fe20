//! The mathematical model of the keyspace and of command execution.
//!
//! A keyspace is a map from keys to values, both character sequences.
//! `command_post` and `command_result` say, for every command, what the
//! keyspace becomes and what result the engine returns; every executable
//! contract in this crate is stated against these two functions.

use vstd::prelude::*;
use vstd::utf8::encode_utf8;

use crate::commands::{CommandView, GenericCommandView, ResultView, StringCommandView};

verus! {

/// The length in bytes of the UTF-8 encoding of a character sequence;
/// what `str::len` reports for a string with these characters.
pub open spec fn byte_len(s: Seq<char>) -> nat {
    encode_utf8(s).len()
}

/// How many of the given keys are present, each occurrence counted
/// independently: the sum over `i` of "`keys[i]` is present".
pub open spec fn exists_count(m: Map<Seq<char>, Seq<char>>, keys: Seq<Seq<char>>) -> nat
    decreases keys.len(),
{
    if keys.len() == 0 {
        0
    } else {
        exists_count(m, keys.drop_last()) + (if m.dom().contains(keys.last()) {
            1nat
        } else {
            0nat
        })
    }
}

/// The keyspace after removing the given keys in order.
pub open spec fn delete_post(m: Map<Seq<char>, Seq<char>>, keys: Seq<Seq<char>>) -> Map<
    Seq<char>,
    Seq<char>,
>
    decreases keys.len(),
{
    if keys.len() == 0 {
        m
    } else {
        delete_post(m.remove(keys.first()), keys.drop_first())
    }
}

/// How many removals actually happen when the given keys are removed in
/// order: a key already removed by an earlier occurrence is not counted
/// again.
pub open spec fn delete_count(m: Map<Seq<char>, Seq<char>>, keys: Seq<Seq<char>>) -> nat
    decreases keys.len(),
{
    if keys.len() == 0 {
        0
    } else {
        (if m.dom().contains(keys.first()) {
            1nat
        } else {
            0nat
        }) + delete_count(m.remove(keys.first()), keys.drop_first())
    }
}

/// The value bound to `key` after appending `value` to it: the old value
/// extended, or `value` alone when the key was absent.
pub open spec fn append_value(
    m: Map<Seq<char>, Seq<char>>,
    key: Seq<char>,
    value: Seq<char>,
) -> Seq<char> {
    if m.dom().contains(key) {
        m[key] + value
    } else {
        value
    }
}

/// The keyspace after a command is applied.
pub open spec fn command_post(m: Map<Seq<char>, Seq<char>>, c: CommandView) -> Map<
    Seq<char>,
    Seq<char>,
> {
    match c {
        CommandView::String(StringCommandView::Put { key, value }) => m.insert(key, value),
        CommandView::String(StringCommandView::Get { .. }) => m,
        CommandView::String(StringCommandView::Append { key, value }) => m.insert(
            key,
            append_value(m, key, value),
        ),
        CommandView::Generic(GenericCommandView::Exists { .. }) => m,
        CommandView::Generic(GenericCommandView::Delete { keys }) => delete_post(m, keys),
    }
}

/// The result the engine returns for a command applied to keyspace `m`.
pub open spec fn command_result(m: Map<Seq<char>, Seq<char>>, c: CommandView) -> ResultView {
    match c {
        CommandView::String(StringCommandView::Put { .. }) => ResultView::Str("OK"@),
        CommandView::String(StringCommandView::Get { key }) => if m.dom().contains(key) {
            ResultView::Str(m[key])
        } else {
            ResultView::Nil
        },
        CommandView::String(StringCommandView::Append { key, value }) => ResultView::Int(
            byte_len(append_value(m, key, value)),
        ),
        CommandView::Generic(GenericCommandView::Exists { keys }) => ResultView::Int(
            exists_count(m, keys),
        ),
        CommandView::Generic(GenericCommandView::Delete { keys }) => ResultView::Int(
            delete_count(m, keys),
        ),
    }
}

/// The decimal digits of `n`, most significant first.
pub open spec fn dec_rep(n: nat) -> Seq<char>
    decreases n,
{
    if n < 10 {
        seq![digit_char(n)]
    } else {
        dec_rep(n / 10).push(digit_char(n % 10))
    }
}

/// The character for one decimal digit.
pub open spec fn digit_char(d: nat) -> char {
    if d == 0 {
        '0'
    } else if d == 1 {
        '1'
    } else if d == 2 {
        '2'
    } else if d == 3 {
        '3'
    } else if d == 4 {
        '4'
    } else if d == 5 {
        '5'
    } else if d == 6 {
        '6'
    } else if d == 7 {
        '7'
    } else if d == 8 {
        '8'
    } else {
        '9'
    }
}

/// How the operator shell renders a result as a response payload.
pub open spec fn render(r: ResultView) -> Seq<char> {
    match r {
        ResultView::Str(s) => s,
        ResultView::Int(n) => dec_rep(n),
        ResultView::Bool(b) => if b {
            "true"@
        } else {
            "false"@
        },
        ResultView::Nil => "nil"@,
        ResultView::Error(m) => "Error: "@ + m,
    }
}

/// UTF-8 encodes a concatenation piecewise, so byte lengths add up over
/// concatenation.
pub proof fn lemma_encode_utf8_concat(a: Seq<char>, b: Seq<char>)
    ensures
        encode_utf8(a + b) == encode_utf8(a) + encode_utf8(b),
        byte_len(a + b) == byte_len(a) + byte_len(b),
    decreases a.len(),
{
    if a.len() == 0 {
        assert(a + b =~= b);
        assert(encode_utf8(a) + encode_utf8(b) =~= encode_utf8(b));
    } else {
        assert((a + b).drop_first() =~= a.drop_first() + b);
        lemma_encode_utf8_concat(a.drop_first(), b);
        assert(encode_utf8(a + b) =~= encode_utf8(a) + encode_utf8(b));
    }
}

} // verus!
