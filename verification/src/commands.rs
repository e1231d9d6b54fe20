//! The command algebra: the typed commands and typed results that the
//! keyspace engine, the operator shell, and the wire format share.

use vstd::prelude::*;

verus! {

/// Commands that touch a single string value.
#[derive(Debug)]
pub enum StringCommand {
    Put { key: String, value: String },
    Get { key: String },
    Append { key: String, value: String },
}

/// Commands that work on keys regardless of the value's data type.
#[derive(Debug)]
pub enum GenericCommand {
    Exists { keys: Vec<String> },
    Delete { keys: Vec<String> },
}

/// A command, routed by its category.
#[derive(Debug)]
pub enum Command {
    String(StringCommand),
    Generic(GenericCommand),
}

/// The result of executing a command.
#[derive(Debug)]
pub enum CommandResult {
    String(String),
    Int(u64),
    Bool(bool),
    Nil,
    Error(String),
}

/// The mathematical value of a `StringCommand`: its keys and values as
/// character sequences.
pub enum StringCommandView {
    Put { key: Seq<char>, value: Seq<char> },
    Get { key: Seq<char> },
    Append { key: Seq<char>, value: Seq<char> },
}

/// The mathematical value of a `GenericCommand`.
pub enum GenericCommandView {
    Exists { keys: Seq<Seq<char>> },
    Delete { keys: Seq<Seq<char>> },
}

/// The mathematical value of a `Command`.
pub enum CommandView {
    String(StringCommandView),
    Generic(GenericCommandView),
}

/// The mathematical value of a `CommandResult`. Integer results are
/// unbounded here; the executable type carries them as `u64`.
pub enum ResultView {
    Str(Seq<char>),
    Int(nat),
    Bool(bool),
    Nil,
    Error(Seq<char>),
}

impl View for StringCommand {
    type V = StringCommandView;

    open spec fn view(&self) -> StringCommandView {
        match self {
            StringCommand::Put { key, value } => StringCommandView::Put {
                key: key@,
                value: value@,
            },
            StringCommand::Get { key } => StringCommandView::Get { key: key@ },
            StringCommand::Append { key, value } => StringCommandView::Append {
                key: key@,
                value: value@,
            },
        }
    }
}

impl View for GenericCommand {
    type V = GenericCommandView;

    open spec fn view(&self) -> GenericCommandView {
        match self {
            GenericCommand::Exists { keys } => GenericCommandView::Exists {
                keys: keys.deep_view(),
            },
            GenericCommand::Delete { keys } => GenericCommandView::Delete {
                keys: keys.deep_view(),
            },
        }
    }
}

impl View for Command {
    type V = CommandView;

    open spec fn view(&self) -> CommandView {
        match self {
            Command::String(c) => CommandView::String(c@),
            Command::Generic(c) => CommandView::Generic(c@),
        }
    }
}

impl View for CommandResult {
    type V = ResultView;

    open spec fn view(&self) -> ResultView {
        match self {
            CommandResult::String(s) => ResultView::Str(s@),
            CommandResult::Int(n) => ResultView::Int(*n as nat),
            CommandResult::Bool(b) => ResultView::Bool(*b),
            CommandResult::Nil => ResultView::Nil,
            CommandResult::Error(m) => ResultView::Error(m@),
        }
    }
}

/// Whether a command changes the keyspace. Exactly `Put`, `Append` and
/// `Delete` are mutating; `Get` and `Exists` never are.
pub open spec fn is_mutating(c: CommandView) -> bool {
    match c {
        CommandView::String(StringCommandView::Put { .. }) => true,
        CommandView::String(StringCommandView::Get { .. }) => false,
        CommandView::String(StringCommandView::Append { .. }) => true,
        CommandView::Generic(GenericCommandView::Exists { .. }) => false,
        CommandView::Generic(GenericCommandView::Delete { .. }) => true,
    }
}

impl PartialEq for CommandResult {
    fn eq(&self, other: &CommandResult) -> bool {
        match (self, other) {
            (CommandResult::String(a), CommandResult::String(b)) => a.eq(b),
            (CommandResult::Int(a), CommandResult::Int(b)) => *a == *b,
            (CommandResult::Bool(a), CommandResult::Bool(b)) => *a == *b,
            (CommandResult::Nil, CommandResult::Nil) => true,
            (CommandResult::Error(a), CommandResult::Error(b)) => a.eq(b),
            _ => false,
        }
    }
}

impl vstd::std_specs::cmp::PartialEqSpecImpl for CommandResult {
    open spec fn obeys_eq_spec() -> bool {
        true
    }

    open spec fn eq_spec(&self, other: &CommandResult) -> bool {
        self@ == other@
    }
}

impl Command {
    /// An owned copy of this command, equal to it value for value.
    pub fn duplicate(&self) -> (c: Command)
        ensures
            c@ == self@,
    {
        match self {
            Command::String(StringCommand::Put { key, value }) => Command::String(
                StringCommand::Put { key: key.clone(), value: value.clone() },
            ),
            Command::String(StringCommand::Get { key }) => Command::String(
                StringCommand::Get { key: key.clone() },
            ),
            Command::String(StringCommand::Append { key, value }) => Command::String(
                StringCommand::Append { key: key.clone(), value: value.clone() },
            ),
            Command::Generic(GenericCommand::Exists { keys }) => Command::Generic(
                GenericCommand::Exists { keys: duplicate_keys(keys) },
            ),
            Command::Generic(GenericCommand::Delete { keys }) => Command::Generic(
                GenericCommand::Delete { keys: duplicate_keys(keys) },
            ),
        }
    }
}

/// An owned copy of a key list, equal to it value for value.
fn duplicate_keys(keys: &Vec<String>) -> (out: Vec<String>)
    ensures
        out.deep_view() == keys.deep_view(),
{
    let mut out: Vec<String> = Vec::new();
    let mut i: usize = 0;
    while i < keys.len()
        invariant
            i <= keys.len(),
            out@.len() == i as int,
            forall|j: int| 0 <= j < i ==> #[trigger] out@[j]@ == keys@[j]@,
        decreases keys.len() - i,
    {
        out.push(keys[i].clone());
        i += 1;
    }
    assert(out.deep_view() =~~= keys.deep_view());
    out
}

} // verus!
