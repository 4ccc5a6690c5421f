//! The steps that set up an isolated git worktree and hand it to the
//! assistant, as a state machine: the caller performs each action and
//! reports what came of it.
use vstd::prelude::*;

use crate::shell::{shell_quote, single_quoted};

verus! {

/// The namespace of the branches made for workspaces.
pub const BRANCH_PREFIX: &'static str = "ai/";

/// Opening of the script that keeps the worktree.
pub const KEEP_OPEN: &'static str = "cd ";

/// Between the worktree path and the assistant's command, keeping the worktree.
pub const KEEP_LAUNCH: &'static str = " || exit 1\nexec ";

/// Opening of the script that removes the worktree when the assistant exits.
pub const CLEANUP_OPEN: &'static str = "worktree=";

/// Between the worktree path and the assistant's command, removing the
/// worktree on any exit of the shell, signals included.
pub const CLEANUP_LAUNCH: &'static str = "\ncd \"$worktree\" || exit 1\ncleanup() {\n    cd \"$OLDPWD\" || cd /\n    git worktree remove --force \"$worktree\"\n    echo \"Removed worktree at $worktree\"\n}\ntrap cleanup EXIT\ntrap 'exit 129' HUP\ntrap 'exit 130' INT\ntrap 'exit 143' TERM\n";

/// The end of either script.
pub const SCRIPT_CLOSE: &'static str = "\n";

/// The branch of the workspace for `feature`.
pub open spec fn branch_name(feature: Seq<char>) -> Seq<char> {
    BRANCH_PREFIX@ + feature
}

/// The assistant's arguments: the quoted query, if there is one.
pub open spec fn query_argument(query: Option<Seq<char>>) -> Seq<char> {
    match query {
        Some(q) => seq![' '] + single_quoted(q),
        None => seq![],
    }
}

/// The script that starts the assistant in the worktree and leaves the
/// worktree in place.
pub open spec fn keep_script(path: Seq<char>, assistant: Seq<char>, query: Option<Seq<char>>) -> Seq<
    char,
> {
    KEEP_OPEN@ + single_quoted(path) + KEEP_LAUNCH@ + single_quoted(assistant) + query_argument(
        query,
    ) + SCRIPT_CLOSE@
}

/// The script that starts the assistant in the worktree and removes the
/// worktree once the shell exits, however it exits.
pub open spec fn cleanup_script(
    path: Seq<char>,
    assistant: Seq<char>,
    query: Option<Seq<char>>,
) -> Seq<char> {
    CLEANUP_OPEN@ + single_quoted(path) + CLEANUP_LAUNCH@ + single_quoted(assistant)
        + query_argument(query) + SCRIPT_CLOSE@
}

/// The view of an optional string.
pub open spec fn opt_view(s: Option<String>) -> Option<Seq<char>> {
    match s {
        Some(t) => Some(t@),
        None => None,
    }
}

/// The view of an optional string slice.
pub open spec fn str_view(s: Option<&str>) -> Option<Seq<char>> {
    match s {
        Some(t) => Some(t@),
        None => None,
    }
}

/// The branch name for the workspace of `feature`.
pub fn branch_for(feature: &str) -> (r: String)
    ensures
        r@ == branch_name(feature@),
{
    let mut r = String::from_str(BRANCH_PREFIX);
    r.append(feature);
    r
}

/// The shell script that hands the worktree at `path` to the assistant
/// started by the program `assistant`, with `query` as its first prompt.
pub fn handoff_script(path: &str, assistant: &str, query: Option<&str>, keep_worktree: bool) -> (r:
    String)
    ensures
        r@ == (if keep_worktree {
            keep_script(path@, assistant@, str_view(query))
        } else {
            cleanup_script(path@, assistant@, str_view(query))
        }),
{
    let mut r = if keep_worktree {
        String::from_str(KEEP_OPEN)
    } else {
        String::from_str(CLEANUP_OPEN)
    };
    let quoted_path = shell_quote(path);
    r.append(quoted_path.as_str());
    if keep_worktree {
        r.append(KEEP_LAUNCH);
    } else {
        r.append(CLEANUP_LAUNCH);
    }
    let quoted_assistant = shell_quote(assistant);
    r.append(quoted_assistant.as_str());
    let ghost before = r@;
    match query {
        Some(q) => {
            r.append(" ");
            let quoted_query = shell_quote(q);
            r.append(quoted_query.as_str());
            proof {
                reveal_strlit(" ");
                assert(r@ =~= before + query_argument(Some(q@)));
            }
        },
        None => {
            assert(r@ =~= before + query_argument(None));
        },
    }
    r.append(SCRIPT_CLOSE);
    r
}

/// What is asked for: the feature the workspace is for, where its worktree
/// goes, the program that starts the assistant, an optional setup command,
/// an optional first prompt, and whether the worktree outlives the assistant.
pub struct WorkspaceRequest {
    pub feature_name: String,
    pub worktree_path: String,
    pub assistant: String,
    pub setup_command: Option<String>,
    pub query: Option<String>,
    pub keep_worktree: bool,
}

/// How far the set-up has come, that is which report is awaited next.
pub enum Phase {
    AwaitingDiff,
    AwaitingWorktree { diff: String },
    AwaitingPatch,
    AwaitingConfigCopy,
    AwaitingSetup,
    Finished,
}

/// What came of the last action.
pub enum Event {
    /// The uncommitted changes of the current directory, as a diff.
    DiffCaptured { diff: String },
    WorktreeCreated { success: bool },
    PatchApplied { success: bool },
    /// The assistant's configuration directory was copied, where there was one.
    ConfigCopied { success: bool },
    SetupFinished { success: bool },
}

/// Why the set-up stopped.
pub enum WorkspaceError {
    WorktreeCreationFailed,
    PatchApplyFailed,
    ConfigCopyFailed,
    SetupCommandFailed { command: String },
    /// A report came that the current phase does not await.
    UnexpectedEvent,
}

/// What the caller is to do next.
pub enum Action {
    /// Read the uncommitted changes of the current directory.
    CaptureDiff,
    /// Add a worktree at `path` on the new branch `branch`.
    CreateWorktree { branch: String, path: String },
    /// Apply `patch` inside `dir`.
    ApplyPatch { patch: String, dir: String },
    /// Copy the directory `source`, if there is one, to `target`.
    CopyConfig { source: String, target: String },
    /// Run `command` through a shell inside `dir`.
    RunSetup { command: String, dir: String },
    /// Replace this process with a shell that runs `script`.
    HandOff { script: String },
    /// Stop with `error`; what was set up so far stays for inspection.
    Fail { error: WorkspaceError },
}

/// The assistant's configuration directory, relative to the current
/// directory: a dot and the assistant's program name.
pub open spec fn config_source(req: WorkspaceRequest) -> Seq<char> {
    seq!['.'] + req.assistant@
}

/// Where the configuration directory goes inside the worktree.
pub open spec fn config_target(req: WorkspaceRequest) -> Seq<char> {
    req.worktree_path@ + seq!['/'] + config_source(req)
}

/// The copy of the configuration directory into the worktree.
pub open spec fn copies_config(req: WorkspaceRequest, action: Action) -> bool {
    action matches Action::CopyConfig { source, target } && source@ == config_source(req)
        && target@ == config_target(req)
}

/// The hand-off that ends a set-up that went well.
pub open spec fn hands_off(req: WorkspaceRequest, action: Action) -> bool {
    action matches Action::HandOff { script } && script@ == (if req.keep_worktree {
        keep_script(req.worktree_path@, req.assistant@, opt_view(req.query))
    } else {
        cleanup_script(req.worktree_path@, req.assistant@, opt_view(req.query))
    })
}

/// The setup command's text; empty where there is none.
pub open spec fn setup_text(req: WorkspaceRequest) -> Seq<char> {
    match req.setup_command {
        Some(c) => c@,
        None => seq![],
    }
}

/// The set-up stops: with `action` as the last action, and nothing more awaited.
pub open spec fn stops(next: Phase, action: Action) -> bool {
    next is Finished && action is Fail
}

/// After the configuration is in place: run the setup command if there is
/// one, else hand off.
pub open spec fn after_config(req: WorkspaceRequest, next: Phase, action: Action) -> bool {
    match req.setup_command {
        Some(c) => next is AwaitingSetup && (action matches Action::RunSetup { command, dir }
            && command@ == c@ && dir@ == req.worktree_path@),
        None => next is Finished && hands_off(req, action),
    }
}

/// One step of the set-up: in `phase`, on `event`, the next phase and action.
pub open spec fn transition(
    req: WorkspaceRequest,
    phase: Phase,
    event: Event,
    next: Phase,
    action: Action,
) -> bool {
    match (phase, event) {
        (Phase::AwaitingDiff, Event::DiffCaptured { diff }) => (next matches Phase::AwaitingWorktree {
            diff: d,
        } && d@ == diff@) && (action matches Action::CreateWorktree { branch, path } && branch@
            == branch_name(req.feature_name@) && path@ == req.worktree_path@),
        (Phase::AwaitingWorktree { diff }, Event::WorktreeCreated { success }) => if !success {
            stops(next, action) && action == (Action::Fail {
                error: WorkspaceError::WorktreeCreationFailed,
            })
        } else if diff@.len() > 0 {
            next is AwaitingPatch && (action matches Action::ApplyPatch { patch, dir } && patch@
                == diff@ && dir@ == req.worktree_path@)
        } else {
            next is AwaitingConfigCopy && copies_config(req, action)
        },
        (Phase::AwaitingPatch, Event::PatchApplied { success }) => if !success {
            stops(next, action) && action == (Action::Fail {
                error: WorkspaceError::PatchApplyFailed,
            })
        } else {
            next is AwaitingConfigCopy && copies_config(req, action)
        },
        (Phase::AwaitingConfigCopy, Event::ConfigCopied { success }) => if !success {
            stops(next, action) && action == (Action::Fail {
                error: WorkspaceError::ConfigCopyFailed,
            })
        } else {
            after_config(req, next, action)
        },
        (Phase::AwaitingSetup, Event::SetupFinished { success }) => if !success {
            stops(next, action) && (action matches Action::Fail {
                error: WorkspaceError::SetupCommandFailed { command },
            } && command@ == setup_text(req))
        } else {
            next is Finished && hands_off(req, action)
        },
        _ => stops(next, action) && action == (Action::Fail {
            error: WorkspaceError::UnexpectedEvent,
        }),
    }
}

fn config_copy(req: &WorkspaceRequest) -> (r: Action)
    ensures
        copies_config(*req, r),
{
    let mut source = String::from_str(".");
    source.append(req.assistant.as_str());
    let mut target = copy_text(&req.worktree_path);
    target.append("/");
    target.append(source.as_str());
    proof {
        reveal_strlit(".");
        reveal_strlit("/");
        assert(source@ =~= config_source(*req));
        assert(target@ =~= config_target(*req));
    }
    Action::CopyConfig { source, target }
}

fn copy_text(s: &String) -> (r: String)
    ensures
        r@ == s@,
{
    String::from_str(s.as_str())
}

/// A set-up in progress.
pub struct Orchestrator {
    pub request: WorkspaceRequest,
    pub phase: Phase,
}

impl Orchestrator {
    /// Begins a set-up: the first action reads the uncommitted changes, before
    /// anything is changed.
    pub fn start(request: WorkspaceRequest) -> (r: (Orchestrator, Action))
        ensures
            r.0.request == request,
            r.0.phase is AwaitingDiff,
            r.1 is CaptureDiff,
    {
        (Orchestrator { request, phase: Phase::AwaitingDiff }, Action::CaptureDiff)
    }

    fn hand_off(&self) -> (r: Action)
        ensures
            hands_off(self.request, r),
    {
        let query = match &self.request.query {
            Some(q) => Some(q.as_str()),
            None => None,
        };
        let script = handoff_script(
            self.request.worktree_path.as_str(),
            self.request.assistant.as_str(),
            query,
            self.request.keep_worktree,
        );
        Action::HandOff { script }
    }

    /// Takes the report of the last action and says what to do next.
    pub fn step(&mut self, event: Event) -> (r: Action)
        ensures
            final(self).request == old(self).request,
            transition(old(self).request, old(self).phase, event, final(self).phase, r),
    {
        let mut phase = Phase::Finished;
        std::mem::swap(&mut self.phase, &mut phase);
        let path = &self.request.worktree_path;
        match (phase, event) {
            (Phase::AwaitingDiff, Event::DiffCaptured { diff }) => {
                self.phase = Phase::AwaitingWorktree { diff };
                Action::CreateWorktree {
                    branch: branch_for(self.request.feature_name.as_str()),
                    path: copy_text(path),
                }
            },
            (Phase::AwaitingWorktree { diff }, Event::WorktreeCreated { success }) => {
                if !success {
                    Action::Fail { error: WorkspaceError::WorktreeCreationFailed }
                } else if diff.unicode_len() > 0 {
                    self.phase = Phase::AwaitingPatch;
                    Action::ApplyPatch { patch: diff, dir: copy_text(path) }
                } else {
                    self.phase = Phase::AwaitingConfigCopy;
                    config_copy(&self.request)
                }
            },
            (Phase::AwaitingPatch, Event::PatchApplied { success }) => {
                if !success {
                    Action::Fail { error: WorkspaceError::PatchApplyFailed }
                } else {
                    self.phase = Phase::AwaitingConfigCopy;
                    config_copy(&self.request)
                }
            },
            (Phase::AwaitingConfigCopy, Event::ConfigCopied { success }) => {
                if !success {
                    Action::Fail { error: WorkspaceError::ConfigCopyFailed }
                } else {
                    match &self.request.setup_command {
                        Some(c) => {
                            self.phase = Phase::AwaitingSetup;
                            Action::RunSetup { command: copy_text(c), dir: copy_text(path) }
                        },
                        None => self.hand_off(),
                    }
                }
            },
            (Phase::AwaitingSetup, Event::SetupFinished { success }) => {
                if !success {
                    let command = match &self.request.setup_command {
                        Some(c) => copy_text(c),
                        None => String::new(),
                    };
                    Action::Fail { error: WorkspaceError::SetupCommandFailed { command } }
                } else {
                    self.hand_off()
                }
            },
            _ => Action::Fail { error: WorkspaceError::UnexpectedEvent },
        }
    }
}

} // verus!

verus! {

/// With no uncommitted changes, a created worktree goes straight on to the
/// configuration copy: no patch is applied.
pub proof fn empty_diff_skips_patch(
    req: WorkspaceRequest,
    diff: String,
    next: Phase,
    action: Action,
)
    requires
        diff@.len() == 0,
        transition(
            req,
            Phase::AwaitingWorktree { diff },
            Event::WorktreeCreated { success: true },
            next,
            action,
        ),
    ensures
        !(action is ApplyPatch),
        action is CopyConfig,
        next is AwaitingConfigCopy,
{
}

} // verus!
