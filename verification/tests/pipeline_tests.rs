use hermit::engine::command::{ExecError, Invocation};
use hermit::engine::external::{Action, ExternalCommand, PipelineRun, StageOut};

fn inv(name: &str, args: &[&str]) -> Invocation {
    Invocation {
        name: name.to_string(),
        args: args.iter().map(|a| a.to_string()).collect(),
    }
}

fn spawn_all(run: &mut PipelineRun) {
    loop {
        match run.next() {
            Action::Spawn { .. } => run.spawned_ok(),
            _ => break,
        }
    }
}

#[test]
fn test_empty_pipeline() {
    let command = ExternalCommand::new("/tmp".to_string());
    let run = command.execute_pipeline(vec![]);
    assert!(run.finished());
    assert!(run.result().is_ok());
}

#[test]
fn test_single_command_run() {
    let command = ExternalCommand::new("/tmp".to_string());
    let mut run = command.execute("touch", vec!["test.txt".to_string()]);
    assert_eq!(run.num_stages(), 1);
    assert_eq!(run.dir(), "/tmp");
    match run.next() {
        Action::Spawn { index, pipe_in, out } => {
            assert_eq!(index, 0);
            assert!(!pipe_in);
            assert!(matches!(out, StageOut::Inherit));
        },
        _ => panic!("a fresh run spawns first"),
    }
    run.spawned_ok();
    assert!(matches!(run.next(), Action::Wait { index: 0 }));
    run.waited(true);
    assert!(run.finished());
    assert!(run.result().is_ok());
}

#[test]
fn test_pipeline_wiring() {
    // only the last stage's output reaches the terminal; every earlier
    // stage feeds the next through a pipe
    let command = ExternalCommand::new("/tmp".to_string());
    let mut run = command.execute_pipeline(vec![inv("echo", &["hello"]), inv("grep", &["hello"])]);
    match run.next() {
        Action::Spawn { index, pipe_in, out } => {
            assert_eq!(index, 0);
            assert!(!pipe_in);
            assert!(matches!(out, StageOut::Pipe));
        },
        _ => panic!("spawn first"),
    }
    run.spawned_ok();
    match run.next() {
        Action::Spawn { index, pipe_in, out } => {
            assert_eq!(index, 1);
            assert!(pipe_in);
            assert!(matches!(out, StageOut::Inherit));
        },
        _ => panic!("spawn the second stage before waiting"),
    }
    run.spawned_ok();
    assert!(matches!(run.next(), Action::Wait { index: 0 }));
    run.waited(true);
    assert!(matches!(run.next(), Action::Wait { index: 1 }));
    run.waited(true);
    assert!(run.finished());
    assert!(run.result().is_ok());
}

#[test]
fn test_redirect_wiring() {
    // with a redirect, the stage's output goes to the file, not the
    // terminal
    let command = ExternalCommand::new("/tmp".to_string());
    let mut run = command.execute_redirect("echo", vec!["hello".to_string()], "out.txt");
    match run.next() {
        Action::Spawn { index, pipe_in, out } => {
            assert_eq!(index, 0);
            assert!(!pipe_in);
            match out {
                StageOut::File(f) => assert_eq!(f, "out.txt"),
                _ => panic!("a redirected stage writes to the file"),
            }
        },
        _ => panic!("spawn first"),
    }
    run.spawned_ok();
    run.waited(true);
    assert!(run.finished());
    assert!(run.result().is_ok());
}

#[test]
fn test_middle_stage_failure_still_reaps_all() {
    // a failing middle stage neither stops the third stage from being
    // waited on nor hides its own 1-based index
    let command = ExternalCommand::new("/tmp".to_string());
    let mut run = command.execute_pipeline(vec![
        inv("echo", &["hi"]),
        inv("false", &[]),
        inv("cat", &[]),
    ]);
    spawn_all(&mut run);
    assert!(matches!(run.next(), Action::Wait { index: 0 }));
    run.waited(true);
    assert!(matches!(run.next(), Action::Wait { index: 1 }));
    run.waited(false);
    // the failure is recorded, yet the third stage is still waited on
    assert!(matches!(run.next(), Action::Wait { index: 2 }));
    run.waited(true);
    assert!(run.finished());
    match run.result() {
        Err(ExecError::StageFailed(i)) => {
            assert_eq!(i, 2);
        },
        _ => panic!("the failing stage's index is reported"),
    }
    assert_eq!(
        run.result().unwrap_err().message(),
        "pipeline command 2 exited with non-zero status"
    );
}

#[test]
fn test_spawn_failure_reports_not_found() {
    let command = ExternalCommand::new("/tmp".to_string());
    let mut run = command.execute("zzzznotacommand", vec![]);
    assert!(matches!(run.next(), Action::Spawn { index: 0, .. }));
    run.spawn_failed();
    assert!(run.finished());
    match run.result() {
        Err(e) => {
            assert!(matches!(&e, ExecError::CommandNotFound(n) if n == "zzzznotacommand"));
            assert_eq!(e.message(), "command not found: zzzznotacommand");
        },
        _ => panic!("an unspawnable command is reported"),
    }
}

#[test]
fn test_spawn_failure_mid_pipeline_reaps_earlier_stages() {
    let command = ExternalCommand::new("/tmp".to_string());
    let mut run = command.execute_pipeline(vec![inv("echo", &["x"]), inv("nope", &[])]);
    run.spawned_ok();
    assert!(matches!(run.next(), Action::Spawn { index: 1, .. }));
    run.spawn_failed();
    // the first stage was spawned and must still be reaped
    assert!(!run.finished());
    assert!(matches!(run.next(), Action::Wait { index: 0 }));
    run.waited(true);
    assert!(run.finished());
    assert!(matches!(run.result(), Err(ExecError::CommandNotFound(_))));
}

#[test]
fn test_io_failure_aborts_spawning() {
    let command = ExternalCommand::new("/tmp".to_string());
    let mut run = command.execute_redirect("echo", vec![], "/nonexistent/file");
    run.io_failed("Failed to open redirect file".to_string());
    assert!(run.finished());
    match run.result() {
        Err(ExecError::Io(d)) => assert_eq!(d, "Failed to open redirect file"),
        _ => panic!("the plumbing failure is reported"),
    }
}
