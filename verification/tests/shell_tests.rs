use hermit::engine::command::ExecError;
use hermit::shell::{Shell, StatementPlan};

#[test]
fn test_parse_args() {
    let shell = Shell::new("/".to_string());

    assert_eq!(
        shell.parse_args("command \"quoted arg\" unquoted"),
        vec!["command".to_string(), "quoted arg".to_string(), "unquoted".to_string()]
    );

    assert_eq!(
        shell.parse_args("command with multiple    spaces"),
        vec![
            "command".to_string(),
            "with".to_string(),
            "multiple".to_string(),
            "spaces".to_string()
        ]
    );
}

#[test]
fn test_transform_input() {
    let shell = Shell::new("/".to_string());

    assert_eq!(
        shell.transform_input("cmd1; cmd2 # comment"),
        vec!["cmd1".to_string(), "cmd2".to_string()]
    );

    assert_eq!(
        shell.transform_input("cmd1;; cmd2"),
        vec!["cmd1".to_string(), "cmd2".to_string()]
    );
}

#[test]
fn test_expand_tilde() {
    let shell = Shell::new("/".to_string());
    let home = "/home/user";

    assert_eq!(shell.expand_tilde("~/test", home), format!("{}/test", home));
    assert_eq!(shell.expand_tilde("/absolute/path", home), "/absolute/path");
}

#[test]
fn test_quoted_argument_keeps_whitespace() {
    // a quoted argument arrives as one argument, blanks and all
    let shell = Shell::new("/".to_string());
    assert_eq!(shell.parse_args("echo \"a b\""), vec!["echo".to_string(), "a b".to_string()]);
}

#[test]
fn test_two_statements_in_order() {
    // `cmd1; cmd2 # trailing comment` runs exactly cmd1 then cmd2
    let shell = Shell::new("/".to_string());
    let statements = shell.transform_input("cmd1; cmd2 # trailing comment");
    assert_eq!(statements.len(), 2);
    assert_eq!(statements[0], "cmd1");
    assert_eq!(statements[1], "cmd2");
}

#[test]
fn test_blank_input_no_statement_no_history() {
    let mut shell = Shell::new("/".to_string());
    assert_eq!(shell.note_input("   \t  "), Vec::<String>::new());
    assert_eq!(shell.note_input("   # just a comment"), Vec::<String>::new());
    assert_eq!(shell.note_input("# comment"), Vec::<String>::new());
    assert_eq!(shell.history.len(), 0);
    let statements = shell.note_input("echo hi");
    assert_eq!(statements, vec!["echo hi".to_string()]);
    assert_eq!(shell.history, vec!["echo hi".to_string()]);
}

#[test]
fn test_plan_empty_and_exit() {
    let shell = Shell::new("/".to_string());
    assert!(matches!(shell.plan_statement("", "/home/u"), Ok(StatementPlan::Empty)));
    assert!(matches!(shell.plan_statement("exit", "/home/u"), Ok(StatementPlan::Exit)));
    assert!(matches!(shell.plan_statement("exit now", "/home/u"), Ok(StatementPlan::Exit)));
}

#[test]
fn test_plan_pipeline() {
    let shell = Shell::new("/".to_string());
    match shell.plan_statement("echo hello | grep hello", "/home/u") {
        Ok(StatementPlan::Pipeline(stages)) => {
            assert_eq!(stages.len(), 2);
            assert_eq!(stages[0].name, "echo");
            assert_eq!(stages[0].args, vec!["hello".to_string()]);
            assert_eq!(stages[1].name, "grep");
            assert_eq!(stages[1].args, vec!["hello".to_string()]);
        },
        _ => panic!("a pipe makes a pipeline"),
    }
}

#[test]
fn test_plan_redirect() {
    let shell = Shell::new("/".to_string());
    match shell.plan_statement("echo hello > out.txt", "/home/u") {
        Ok(StatementPlan::Redirect(inv, target)) => {
            assert_eq!(inv.name, "echo");
            assert_eq!(inv.args, vec!["hello".to_string()]);
            assert_eq!(target, "out.txt");
        },
        _ => panic!("a redirect operator makes a redirect"),
    }
}

#[test]
fn test_plan_missing_redirect_target() {
    let shell = Shell::new("/".to_string());
    match shell.plan_statement("echo hello >", "/home/u") {
        Err(e) => {
            assert!(matches!(e, ExecError::MissingRedirectTarget));
            assert_eq!(e.message(), "missing redirect target");
        },
        _ => panic!("a trailing redirect operator is an error"),
    }
}

#[test]
fn test_plan_plain_command_with_tilde() {
    let shell = Shell::new("/".to_string());
    match shell.plan_statement("cat ~/notes.txt", "/home/u") {
        Ok(StatementPlan::Command(inv)) => {
            assert_eq!(inv.name, "cat");
            assert_eq!(inv.args, vec!["/home/u/notes.txt".to_string()]);
        },
        _ => panic!("no operator makes a plain command"),
    }
}

#[test]
fn test_pipeline_stray_pipe_skipped() {
    let shell = Shell::new("/".to_string());
    match shell.plan_statement("| grep x", "/home/u") {
        Ok(StatementPlan::Pipeline(stages)) => {
            assert_eq!(stages.len(), 1);
            assert_eq!(stages[0].name, "grep");
        },
        _ => panic!("a stray pipe still makes a pipeline"),
    }
}

#[test]
fn test_join_round_trip_concrete() {
    // tokenizing a plainly spaced line and joining with single spaces
    // gives the line back
    let shell = Shell::new("/".to_string());
    let line = "one two three";
    let tokens = shell.parse_args(line);
    assert_eq!(hermit::strutil::join_spaces(&tokens), line);
}
