use hermit::builtin::BuiltinCommand;
use hermit::engine::command::BuiltinAction;

fn setup() -> BuiltinCommand {
    let current_dir = "/home/user".to_string();
    let history = vec!["echo hello".to_string(), "cd /".to_string()];
    BuiltinCommand::new(current_dir, history)
}

#[test]
// test that all commands are loaded
fn test_builtin_command() {
    let builtin = setup();
    let commands = builtin.get_commands();
    assert_eq!(commands.len(), 6);
    assert!(commands.contains(&"echo"));
    assert!(commands.contains(&"cd"));
    assert!(commands.contains(&"ls"));
    assert!(commands.contains(&"pwd"));
    assert!(commands.contains(&"history"));
    assert!(commands.contains(&"type"));
}

#[test]
fn test_execute_echo() {
    let builtin = setup();
    let result = builtin.execute("echo", &vec!["hello".to_string()]);
    assert!(result.is_ok());
    assert!(result.unwrap().is_some());
}

#[test]
fn test_execute_cd() {
    let builtin = setup();
    let result = builtin.execute("cd", &vec!["/".to_string()]);
    assert!(result.is_ok());
    assert!(result.unwrap().is_some());
}

#[test]
fn test_execute_ls() {
    let builtin = setup();
    let result = builtin.execute("ls", &vec![]);
    assert!(result.is_ok());
    assert!(result.unwrap().is_some());
}

#[test]
fn test_execute_pwd() {
    let builtin = setup();
    let result = builtin.execute("pwd", &vec![]);
    assert!(result.is_ok());
    assert!(result.unwrap().is_some());
}

#[test]
fn test_execute_history() {
    let builtin = setup();
    let result = builtin.execute("history", &vec![]);
    assert!(result.is_ok());
    assert!(result.unwrap().is_some());
}

#[test]
fn test_execute_type() {
    let builtin = setup();
    let result = builtin.execute("type", &vec!["echo".to_string()]);
    assert!(result.is_ok());
    assert!(result.unwrap().is_some());
}

#[test]
fn test_execute_unknown_command() {
    let builtin = setup();
    let result = builtin.execute("unknown", &vec![]);
    assert!(result.is_ok());
    assert!(result.unwrap().is_none());
}

#[test]
fn test_echo_output_exact() {
    let builtin = setup();
    let action = builtin
        .execute("echo", &vec!["a".to_string(), "b".to_string()])
        .unwrap()
        .unwrap();
    match action {
        BuiltinAction::Print(s) => assert_eq!(s, "a b\n"),
        _ => panic!("echo must print"),
    }
}

#[test]
fn test_history_output_exact() {
    let builtin = setup();
    let action = builtin.execute("history", &vec![]).unwrap().unwrap();
    match action {
        BuiltinAction::Print(s) => assert_eq!(s, "    1 echo hello\n    2 cd /\n"),
        _ => panic!("history must print"),
    }
}

#[test]
fn test_type_builtin_output_exact() {
    let builtin = setup();
    let action = builtin.execute("type", &vec!["echo".to_string()]).unwrap().unwrap();
    match action {
        BuiltinAction::Print(s) => assert_eq!(s, "echo is a shell builtin\n"),
        _ => panic!("type on a builtin must print"),
    }
}

#[test]
fn test_type_external_is_search() {
    let builtin = setup();
    let action = builtin.execute("type", &vec!["cat".to_string()]).unwrap().unwrap();
    match action {
        BuiltinAction::SearchPath(c) => assert_eq!(c, "cat"),
        _ => panic!("type on a non-builtin must search the path"),
    }
}

#[test]
fn test_type_no_argument_errors() {
    let builtin = setup();
    let result = builtin.execute("type", &vec![]);
    assert_eq!(result.unwrap_err(), "No command provided");
}

#[test]
fn test_cd_action() {
    let builtin = setup();
    let action = builtin.execute("cd", &vec!["/tmp".to_string()]).unwrap().unwrap();
    assert!(matches!(action, BuiltinAction::ChangeDir(Some(p)) if p == "/tmp"));
    let home = builtin.execute("cd", &vec![]).unwrap().unwrap();
    assert!(matches!(home, BuiltinAction::ChangeDir(None)));
}

#[test]
fn test_ls_action() {
    let builtin = setup();
    let action = builtin
        .execute("ls", &vec!["-la".to_string(), "/tmp".to_string()])
        .unwrap()
        .unwrap();
    match action {
        BuiltinAction::ListDir { path, show_hidden, long_format } => {
            assert_eq!(path, Some("/tmp".to_string()));
            assert!(show_hidden);
            assert!(long_format);
        },
        _ => panic!("ls must list"),
    }
}
