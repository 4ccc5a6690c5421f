use aido::shell::shell_quote;
use aido::workspace::{
    branch_for, handoff_script, Action, Event, Orchestrator, Phase, WorkspaceError,
    WorkspaceRequest,
};

fn request(setup: Option<&str>, keep: bool) -> WorkspaceRequest {
    WorkspaceRequest {
        feature_name: "login".to_string(),
        worktree_path: "/tmp/wt".to_string(),
        assistant: "assistant".to_string(),
        setup_command: setup.map(|s| s.to_string()),
        query: Some("fix it".to_string()),
        keep_worktree: keep,
    }
}

#[test]
fn branch_is_namespaced() {
    assert_eq!(branch_for("login"), "ai/login");
}

#[test]
fn quoting() {
    assert_eq!(shell_quote("it's"), "'it'\\''s'");
    assert_eq!(shell_quote(""), "''");
    assert_eq!(shell_quote("$HOME"), "'$HOME'");
}

#[test]
fn empty_diff_skips_patch_apply() {
    let (mut o, first) = Orchestrator::start(request(None, false));
    assert!(matches!(first, Action::CaptureDiff));
    match o.step(Event::DiffCaptured { diff: String::new() }) {
        Action::CreateWorktree { branch, path } => {
            assert_eq!(branch, "ai/login");
            assert_eq!(path, "/tmp/wt");
        }
        _ => panic!("expected worktree creation"),
    }
    match o.step(Event::WorktreeCreated { success: true }) {
        Action::CopyConfig { source, target } => {
            assert_eq!(source, ".assistant");
            assert_eq!(target, "/tmp/wt/.assistant");
        }
        _ => panic!("expected the configuration copy"),
    }
    assert!(matches!(o.phase, Phase::AwaitingConfigCopy));
}

#[test]
fn diff_is_replayed() {
    let (mut o, _) = Orchestrator::start(request(Some("make"), true));
    o.step(Event::DiffCaptured { diff: "diff --git a b\n".to_string() });
    match o.step(Event::WorktreeCreated { success: true }) {
        Action::ApplyPatch { patch, dir } => {
            assert_eq!(patch, "diff --git a b\n");
            assert_eq!(dir, "/tmp/wt");
        }
        _ => panic!("expected the patch"),
    }
    assert!(matches!(o.step(Event::PatchApplied { success: true }), Action::CopyConfig { .. }));
    match o.step(Event::ConfigCopied { success: true }) {
        Action::RunSetup { command, dir } => {
            assert_eq!(command, "make");
            assert_eq!(dir, "/tmp/wt");
        }
        _ => panic!("expected the setup command"),
    }
    match o.step(Event::SetupFinished { success: true }) {
        Action::HandOff { script } => {
            assert_eq!(script, handoff_script("/tmp/wt", "assistant", Some("fix it"), true));
        }
        _ => panic!("expected the hand-off"),
    }
    assert!(matches!(o.phase, Phase::Finished));
}

#[test]
fn failures_stop_the_setup() {
    let (mut o, _) = Orchestrator::start(request(None, false));
    o.step(Event::DiffCaptured { diff: String::new() });
    assert!(matches!(
        o.step(Event::WorktreeCreated { success: false }),
        Action::Fail { error: WorkspaceError::WorktreeCreationFailed }
    ));

    let (mut o, _) = Orchestrator::start(request(None, false));
    o.step(Event::DiffCaptured { diff: "x".to_string() });
    o.step(Event::WorktreeCreated { success: true });
    assert!(matches!(
        o.step(Event::PatchApplied { success: false }),
        Action::Fail { error: WorkspaceError::PatchApplyFailed }
    ));

    let (mut o, _) = Orchestrator::start(request(Some("false"), false));
    o.step(Event::DiffCaptured { diff: String::new() });
    o.step(Event::WorktreeCreated { success: true });
    o.step(Event::ConfigCopied { success: true });
    match o.step(Event::SetupFinished { success: false }) {
        Action::Fail { error: WorkspaceError::SetupCommandFailed { command } } => {
            assert_eq!(command, "false")
        }
        _ => panic!("expected the setup failure"),
    }

    let (mut o, _) = Orchestrator::start(request(None, false));
    assert!(matches!(
        o.step(Event::PatchApplied { success: true }),
        Action::Fail { error: WorkspaceError::UnexpectedEvent }
    ));
}

#[test]
fn no_setup_hands_off_after_config() {
    let (mut o, _) = Orchestrator::start(request(None, false));
    o.step(Event::DiffCaptured { diff: String::new() });
    o.step(Event::WorktreeCreated { success: true });
    match o.step(Event::ConfigCopied { success: true }) {
        Action::HandOff { script } => {
            assert_eq!(script, handoff_script("/tmp/wt", "assistant", Some("fix it"), false))
        }
        _ => panic!("expected the hand-off"),
    }
}

#[test]
fn cleanup_script_removes_worktree_on_exit() {
    let script = handoff_script("/tmp/my wt", "agent", Some("it's"), false);
    assert!(script.starts_with("worktree='/tmp/my wt'\n"));
    assert!(script.contains("trap cleanup EXIT"));
    assert!(script.contains("git worktree remove --force \"$worktree\""));
    assert!(script.ends_with("\n'agent' 'it'\\''s'\n"));
}

#[test]
fn keep_script_leaves_worktree() {
    let script = handoff_script("/tmp/wt", "agent", None, true);
    assert_eq!(script, "cd '/tmp/wt' || exit 1\nexec 'agent'\n");
    assert!(!script.contains("worktree remove"));
}
