use tmw::client::{CommandResult, TmwError};
use tmw::runner::{ListAction, PreviewOutcome, SwitchAction, SwitchStage, TmwRunner};
use tmw::runner::render_list;
use tmw::settings::{DirPath, Settings, Tmux, Workspace};

fn workspace(name: &str, dir: &str) -> Workspace {
    Workspace {
        name: name.to_string(),
        directory: DirPath {
            text: Some(dir.to_string()),
        },
    }
}

fn demo_settings() -> Settings {
    Settings {
        workspaces: vec![workspace("Default", "/home"), workspace("project1", "/etc")],
        tmux: Some(Tmux {
            socket_name: Some("test".to_string()),
        }),
    }
}

fn success(stdout: &str) -> CommandResult {
    CommandResult {
        exit_success: true,
        stdout: stdout.as_bytes().to_vec(),
        stderr: Vec::new(),
    }
}

fn failure(stderr: &str) -> CommandResult {
    CommandResult {
        exit_success: false,
        stdout: Vec::new(),
        stderr: stderr.as_bytes().to_vec(),
    }
}

fn strings(args: &[&str]) -> Vec<String> {
    args.iter().map(|a| a.to_string()).collect()
}

/// Drives one whole switch, returning the argument vectors of every
/// invocation that was requested; `running` says whether the existence
/// probe finds a session.
fn drive_switch(
    runner: &TmwRunner,
    name: &str,
    running: bool,
) -> Result<Vec<Vec<String>>, TmwError> {
    let mut issued: Vec<Vec<String>> = Vec::new();
    let mut action = runner.switch_workspace(&name.to_string())?;
    loop {
        match action {
            SwitchAction::Invoke { args, stage } => {
                issued.push(args.clone());
                let result = match stage {
                    SwitchStage::Probed { .. } => CommandResult {
                        exit_success: running,
                        stdout: Vec::new(),
                        stderr: Vec::new(),
                    },
                    _ => success(""),
                };
                action = runner.switch_step(&name.to_string(), stage, result)?;
            }
            SwitchAction::Done => return Ok(issued),
        }
    }
}

#[test]
fn test_list() {
    let settings = demo_settings();
    let runner = TmwRunner::new(&settings);
    match runner.list_workspaces(false) {
        ListAction::Done { names } => {
            assert_eq!(names, strings(&["Default", "project1"]));
            assert_eq!(render_list(&names), "Default\nproject1");
        }
        ListAction::Invoke { .. } => panic!("listing without exclusion queries nothing"),
    }
}

#[test]
fn test_list_exclude_active() {
    let settings = demo_settings();
    let runner = TmwRunner::new(&settings);
    match runner.list_workspaces(true) {
        ListAction::Invoke { args } => {
            assert_eq!(args, strings(&["-L", "test", "display-message", "-p", "#S"]));
        }
        ListAction::Done { .. } => panic!("exclusion needs the active session"),
    }
    let names = runner.list_step(success("Default\n")).unwrap();
    assert_eq!(names, strings(&["project1"]));
}

#[test]
fn test_list_exclude_no_match() {
    let settings = demo_settings();
    let runner = TmwRunner::new(&settings);
    let names = runner.list_step(success("elsewhere\n")).unwrap();
    assert_eq!(names, strings(&["Default", "project1"]));
}

#[test]
fn test_list_exclude_crlf_key() {
    let settings = demo_settings();
    let runner = TmwRunner::new(&settings);
    let names = runner.list_step(success("Default\r\n")).unwrap();
    assert_eq!(names, strings(&["project1"]));
}

#[test]
fn test_list_exclude_query_fails() {
    let settings = demo_settings();
    let runner = TmwRunner::new(&settings);
    let err = runner.list_step(failure("no server running")).unwrap_err();
    assert_eq!(
        err,
        TmwError::ExternalToolFailed("no server running".to_string())
    );
}

#[test]
fn test_list_empty_registry() {
    let settings = Settings {
        workspaces: Vec::new(),
        tmux: None,
    };
    let runner = TmwRunner::new(&settings);
    match runner.list_workspaces(false) {
        ListAction::Done { names } => {
            assert!(names.is_empty());
            assert_eq!(render_list(&names), "");
        }
        ListAction::Invoke { .. } => panic!("listing without exclusion queries nothing"),
    }
}

#[test]
fn test_select() {
    let settings = demo_settings();
    let runner = TmwRunner::new(&settings);
    let issued = drive_switch(&runner, "project1", false).unwrap();
    assert_eq!(
        issued,
        vec![
            strings(&["-L", "test", "has-session", "-t", "project1"]),
            strings(&[
                "-L",
                "test",
                "new-session",
                "-d",
                "-s",
                "project1",
                "-c",
                "/etc"
            ]),
            strings(&["-L", "test", "switch-client", "-t", "project1"]),
        ]
    );
}

#[test]
fn test_select_idempotent() {
    let settings = demo_settings();
    let runner = TmwRunner::new(&settings);
    let first = drive_switch(&runner, "project1", false).unwrap();
    let second = drive_switch(&runner, "project1", true).unwrap();
    let creates = first
        .iter()
        .chain(second.iter())
        .filter(|args| args.contains(&"new-session".to_string()))
        .count();
    let switches = first
        .iter()
        .chain(second.iter())
        .filter(|args| args.contains(&"switch-client".to_string()))
        .count();
    assert_eq!(creates, 1);
    assert_eq!(switches, 2);
}

#[test]
fn test_select_no_socket() {
    let settings = Settings {
        workspaces: vec![workspace("solo", "/tmp")],
        tmux: None,
    };
    let runner = TmwRunner::new(&settings);
    let issued = drive_switch(&runner, "solo", true).unwrap();
    assert_eq!(
        issued,
        vec![
            strings(&["has-session", "-t", "solo"]),
            strings(&["switch-client", "-t", "solo"]),
        ]
    );
}

#[test]
fn test_invalid_select() {
    let settings = demo_settings();
    let runner = TmwRunner::new(&settings);
    let err = runner
        .switch_workspace(&"not-known".to_string())
        .unwrap_err();
    assert_eq!(err, TmwError::UnknownWorkspace("not-known".to_string()));
    assert_eq!(err.message(), "Project not-known is unknown");
}

#[test]
fn test_select_first_match_wins() {
    let settings = Settings {
        workspaces: vec![workspace("dup", "/first"), workspace("dup", "/second")],
        tmux: None,
    };
    let runner = TmwRunner::new(&settings);
    let issued = drive_switch(&runner, "dup", false).unwrap();
    assert_eq!(
        issued[1],
        strings(&["new-session", "-d", "-s", "dup", "-c", "/first"])
    );
}

#[test]
fn test_select_invalid_directory() {
    let settings = Settings {
        workspaces: vec![Workspace {
            name: "odd".to_string(),
            directory: DirPath { text: None },
        }],
        tmux: None,
    };
    let runner = TmwRunner::new(&settings);
    let err = drive_switch(&runner, "odd", false).unwrap_err();
    assert_eq!(err, TmwError::InvalidDirectory);
    assert_eq!(err.message(), "Invalid workspace directory");
    // An already-running session is never re-rooted, so the directory
    // is not even inspected.
    let issued = drive_switch(&runner, "odd", true).unwrap();
    assert_eq!(issued.len(), 2);
}

#[test]
fn test_select_create_fails() {
    let settings = demo_settings();
    let runner = TmwRunner::new(&settings);
    let name = "project1".to_string();
    let action = runner.switch_workspace(&name).unwrap();
    let stage = match action {
        SwitchAction::Invoke { stage, .. } => stage,
        SwitchAction::Done => panic!("a switch always probes first"),
    };
    let action = runner
        .switch_step(&name, stage, failure("ignored probe stderr"))
        .unwrap();
    let stage = match action {
        SwitchAction::Invoke { stage, .. } => stage,
        SwitchAction::Done => panic!("a missing session is created first"),
    };
    let err = runner
        .switch_step(&name, stage, failure("create failed"))
        .unwrap_err();
    assert_eq!(err, TmwError::ExternalToolFailed("create failed".to_string()));
}

#[test]
fn test_preview() {
    let settings = demo_settings();
    let runner = TmwRunner::new(&settings);
    assert_eq!(
        runner.list_sessions_args(),
        strings(&["-L", "test", "ls", "-F", "#{session_id},#{session_name}"])
    );
    let outcome = runner
        .preview_workspace(&"project1".to_string(), success("$0,Default\n$1,project1\n"))
        .unwrap();
    match outcome {
        PreviewOutcome::Capture { args } => {
            assert_eq!(
                args,
                strings(&["-L", "test", "capture-pane", "-ep", "-t", "$1"])
            );
        }
        PreviewOutcome::NotRunning { .. } => panic!("the listing holds project1"),
    }
    assert!(runner.preview_capture_step(success("")).is_ok());
    let err = runner
        .preview_capture_step(failure("capture failed"))
        .unwrap_err();
    assert_eq!(
        err,
        TmwError::ExternalToolFailed("capture failed".to_string())
    );
}

#[test]
fn test_preview_not_started() {
    let settings = demo_settings();
    let runner = TmwRunner::new(&settings);
    let outcome = runner
        .preview_workspace(&"project1".to_string(), success("$0,Default\n"))
        .unwrap();
    match outcome {
        PreviewOutcome::NotRunning { message } => {
            assert_eq!(message, "Workspace project1 is not running");
        }
        PreviewOutcome::Capture { .. } => panic!("project1 is not listed"),
    }
}

#[test]
fn test_invalid_preview() {
    // A name outside the registry is still previewable: the listing
    // alone decides, and an empty listing reports "not running".
    let settings = demo_settings();
    let runner = TmwRunner::new(&settings);
    let outcome = runner
        .preview_workspace(&"not-known".to_string(), success(""))
        .unwrap();
    match outcome {
        PreviewOutcome::NotRunning { message } => {
            assert_eq!(message, "Workspace not-known is not running");
        }
        PreviewOutcome::Capture { .. } => panic!("nothing is listed"),
    }
}

#[test]
fn test_preview_trims_session_id() {
    let settings = Settings {
        workspaces: Vec::new(),
        tmux: None,
    };
    let runner = TmwRunner::new(&settings);
    let outcome = runner
        .preview_workspace(&"work".to_string(), success("  $7\t,work\n"))
        .unwrap();
    match outcome {
        PreviewOutcome::Capture { args } => {
            assert_eq!(args, strings(&["capture-pane", "-ep", "-t", "$7"]));
        }
        PreviewOutcome::NotRunning { .. } => panic!("the listing holds work"),
    }
}

#[test]
fn test_preview_listing_fails() {
    let settings = demo_settings();
    let runner = TmwRunner::new(&settings);
    let err = runner
        .preview_workspace(&"project1".to_string(), failure("no server running"))
        .unwrap_err();
    assert_eq!(
        err,
        TmwError::ExternalToolFailed("no server running".to_string())
    );
}

#[test]
fn test_round_trip() {
    // After a successful switch the tool lists the session; a preview
    // of the same name then never reports "not running".
    let settings = demo_settings();
    let runner = TmwRunner::new(&settings);
    drive_switch(&runner, "project1", false).unwrap();
    let listing = "$0,Default\n$3,project1\n";
    let session = tmw::resolver::find_session(listing, "project1").unwrap();
    assert_eq!(session.id, "$3");
    assert_eq!(session.name, "project1");
    let outcome = runner
        .preview_workspace(&"project1".to_string(), success(listing))
        .unwrap();
    assert!(matches!(outcome, PreviewOutcome::Capture { .. }));
}

#[test]
fn test_encoding_errors() {
    let settings = demo_settings();
    let runner = TmwRunner::new(&settings);
    let bad = CommandResult {
        exit_success: true,
        stdout: vec![0xff, 0xfe],
        stderr: Vec::new(),
    };
    assert_eq!(runner.list_step(bad).unwrap_err(), TmwError::Encoding);
    let bad_stderr = CommandResult {
        exit_success: false,
        stdout: Vec::new(),
        stderr: vec![0xff],
    };
    let err = runner
        .switch_step(
            &"project1".to_string(),
            SwitchStage::Switched,
            bad_stderr,
        )
        .unwrap_err();
    assert_eq!(err, TmwError::Encoding);
    assert_eq!(err.message(), "Unexpected tmux output");
}
