use sphagnumdb::commands::{Command, CommandResult, GenericCommand, StringCommand};
use sphagnumdb::render::render_result;
use sphagnumdb::shell::{parse_operator_command, ShellAction, ShellError};

fn tokens(line: &str) -> Vec<String> {
    line.split_whitespace().map(|t| t.to_string()).collect()
}

#[test]
fn test_render_each_result_kind() {
    assert_eq!(render_result(&CommandResult::String("v".to_string())), "v");
    assert_eq!(render_result(&CommandResult::Int(0)), "0");
    assert_eq!(render_result(&CommandResult::Int(42)), "42");
    assert_eq!(
        render_result(&CommandResult::Int(18446744073709551615)),
        "18446744073709551615"
    );
    assert_eq!(render_result(&CommandResult::Bool(true)), "true");
    assert_eq!(render_result(&CommandResult::Bool(false)), "false");
    assert_eq!(render_result(&CommandResult::Nil), "nil");
    assert_eq!(
        render_result(&CommandResult::Error("boom".to_string())),
        "Error: boom"
    );
}

#[test]
fn test_parse_get() {
    let action = parse_operator_command(&tokens("get k")).unwrap();
    assert!(matches!(
        action,
        ShellAction::Dispatch(Command::String(StringCommand::Get { key })) if key == "k"
    ));
}

#[test]
fn test_parse_set_is_case_insensitive() {
    let action = parse_operator_command(&tokens("SET k v")).unwrap();
    assert!(matches!(
        action,
        ShellAction::Dispatch(Command::String(StringCommand::Put { key, value }))
            if key == "k" && value == "v"
    ));
}

#[test]
fn test_parse_append() {
    let action = parse_operator_command(&tokens("append k v")).unwrap();
    assert!(matches!(
        action,
        ShellAction::Dispatch(Command::String(StringCommand::Append { key, value }))
            if key == "k" && value == "v"
    ));
}

#[test]
fn test_parse_exists_takes_the_rest_of_the_line() {
    let action = parse_operator_command(&tokens("exists a b c")).unwrap();
    assert!(matches!(
        action,
        ShellAction::Dispatch(Command::Generic(GenericCommand::Exists { keys }))
            if keys == vec!["a".to_string(), "b".to_string(), "c".to_string()]
    ));
}

#[test]
fn test_parse_del() {
    let action = parse_operator_command(&tokens("del a b")).unwrap();
    assert!(matches!(
        action,
        ShellAction::Dispatch(Command::Generic(GenericCommand::Delete { keys }))
            if keys == vec!["a".to_string(), "b".to_string()]
    ));
}

#[test]
fn test_parse_toggles() {
    assert!(matches!(
        parse_operator_command(&tokens("enable_pinging_output")).unwrap(),
        ShellAction::EnablePingingOutput
    ));
    assert!(matches!(
        parse_operator_command(&tokens("disable_pinging_output")).unwrap(),
        ShellAction::DisablePingingOutput
    ));
}

#[test]
fn test_parse_refuses_bad_lines() {
    assert_eq!(
        parse_operator_command(&tokens("")).unwrap_err(),
        ShellError::EmptyInput
    );
    assert_eq!(
        parse_operator_command(&tokens("frobnicate k")).unwrap_err(),
        ShellError::UnknownCommand
    );
    assert_eq!(
        parse_operator_command(&tokens("get")).unwrap_err(),
        ShellError::MissingArguments
    );
    assert_eq!(
        parse_operator_command(&tokens("set k")).unwrap_err(),
        ShellError::MissingArguments
    );
    assert_eq!(
        parse_operator_command(&tokens("append k")).unwrap_err(),
        ShellError::MissingArguments
    );
    assert_eq!(
        parse_operator_command(&tokens("exists")).unwrap_err(),
        ShellError::MissingArguments
    );
    assert_eq!(
        parse_operator_command(&tokens("del")).unwrap_err(),
        ShellError::MissingArguments
    );
}
