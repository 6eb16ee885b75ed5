//! Workspace orchestrator. Each operation is driven as a small state
//! machine: the orchestrator decides, from the registry and from the
//! captured result of the previous invocation, which external-tool
//! invocation to issue next (or which failure to report), and the
//! caller performs the invocation and hands the result back. The
//! orchestrator itself never touches the external tool.

use crate::client::{decode_output, is_tool_failure, validated_output, CommandResult, TmwError};
use crate::resolver::{chomp_cr, find_session, find_session_spec, trim_chars, trim_spec};
use crate::settings::{
    spec_find_workspace, spec_namespace, spec_workspace_names, DirPath, Settings, Workspace,
};
use vstd::prelude::*;
use vstd::string::{StrSliceExecFns, StringExecFns};
use vstd::utf8::{decode_utf8, valid_utf8};

verus! {

/// Runs the three operations over a registry it only reads.
pub struct TmwRunner<'s> {
    pub settings: &'s Settings,
}

/// The socket-namespace selector that every invocation is prefixed
/// with: empty, or `-L` followed by the configured socket name.
pub open spec fn spec_socket_prefix(ns: Option<Seq<char>>) -> Seq<Seq<char>> {
    match ns {
        Some(n) => seq!["-L"@, n],
        None => Seq::empty(),
    }
}

/// The existence probe for a session: a non-zero exit is a negative
/// answer, not an error.
pub open spec fn spec_probe_args(ns: Option<Seq<char>>, name: Seq<char>) -> Seq<Seq<char>> {
    spec_socket_prefix(ns) + seq!["has-session"@, "-t"@, name]
}

/// Creates a detached session named `name` rooted at `dir`.
pub open spec fn spec_create_args(ns: Option<Seq<char>>, name: Seq<char>, dir: Seq<char>) -> Seq<
    Seq<char>,
> {
    spec_socket_prefix(ns) + seq!["new-session"@, "-d"@, "-s"@, name, "-c"@, dir]
}

/// Switches the attached client to the session named `name`.
pub open spec fn spec_switch_args(ns: Option<Seq<char>>, name: Seq<char>) -> Seq<Seq<char>> {
    spec_socket_prefix(ns) + seq!["switch-client"@, "-t"@, name]
}

/// Lists all sessions, one `id,name` pair per line.
pub open spec fn spec_list_sessions_args(ns: Option<Seq<char>>) -> Seq<Seq<char>> {
    spec_socket_prefix(ns) + seq!["ls"@, "-F"@, "#{session_id},#{session_name}"@]
}

/// Queries the name of the currently active session.
pub open spec fn spec_active_args(ns: Option<Seq<char>>) -> Seq<Seq<char>> {
    spec_socket_prefix(ns) + seq!["display-message"@, "-p"@, "#S"@]
}

/// Captures the pane of session `id`, styles and trailing spaces kept.
pub open spec fn spec_capture_args(ns: Option<Seq<char>>, id: Seq<char>) -> Seq<Seq<char>> {
    spec_socket_prefix(ns) + seq!["capture-pane"@, "-ep"@, "-t"@, id]
}

/// Where the switch operation stands when an invocation result comes
/// back. The probed workspace's directory is carried along so that the
/// creation path can be decided without a second registry lookup.
#[derive(Debug, Clone, PartialEq)]
pub enum SwitchStage {
    /// The existence probe was issued.
    Probed { dir: DirPath },
    /// The create-session invocation was issued.
    Created,
    /// The switch-client invocation was issued.
    Switched,
}

/// What the caller must do next to carry a switch forward.
#[derive(Debug, Clone, PartialEq)]
pub enum SwitchAction {
    /// Run the external tool with `args` and hand the result back
    /// together with `stage`.
    Invoke { args: Vec<String>, stage: SwitchStage },
    /// The switch is complete.
    Done,
}

/// What follows a session-existence probe: an already-running session
/// is switched to as it stands, a missing one is first created in the
/// workspace's directory, and a directory without a textual form is
/// rejected before anything is created.
pub enum SwitchPlan {
    SwitchOnly,
    CreateThenSwitch(Seq<char>),
    RejectDir,
}

/// The decision that the probe outcome alone fixes.
pub open spec fn spec_after_probe(session_exists: bool, dir: DirPath) -> SwitchPlan {
    if session_exists {
        SwitchPlan::SwitchOnly
    } else {
        match dir.text {
            Some(d) => SwitchPlan::CreateThenSwitch(d@),
            None => SwitchPlan::RejectDir,
        }
    }
}

/// Law: switching to a workspace whose session already runs issues no
/// create invocation — a successful probe always plans a bare
/// switch-client call, so a second switch to the same workspace repeats
/// only the probe and the switch.
pub proof fn lemma_switch_idempotent(dir: DirPath)
    ensures
        spec_after_probe(true, dir) == SwitchPlan::SwitchOnly,
{
}

/// The outcome of a preview once the session listing is interpreted.
#[derive(Debug, Clone, PartialEq)]
pub enum PreviewOutcome {
    /// No session of that name runs: report `message` and succeed.
    NotRunning { message: String },
    /// Run the capture invocation with its output wired straight to
    /// the caller's standard output, then hand the result back.
    Capture { args: Vec<String> },
}

/// The informational text for a workspace with no running session.
pub open spec fn spec_not_running_message(name: Seq<char>) -> Seq<char> {
    "Workspace "@ + name + " is not running"@
}

/// What the list operation asks of its caller.
#[derive(Debug, Clone, PartialEq)]
pub enum ListAction {
    /// Query the active session's name and hand the result back.
    Invoke { args: Vec<String> },
    /// The names to print, in registry order.
    Done { names: Vec<String> },
}

/// The registry names with every entry equal to `key` left out; the
/// others keep their order.
pub open spec fn spec_excluding(names: Seq<Seq<char>>, key: Seq<char>) -> Seq<Seq<char>>
    decreases names.len(),
{
    if names.len() == 0 {
        Seq::empty()
    } else if names[0] == key {
        spec_excluding(names.drop_first(), key)
    } else {
        seq![names[0]] + spec_excluding(names.drop_first(), key)
    }
}

/// Law: excluding a key that no name equals leaves the listing
/// unchanged.
pub proof fn lemma_excluding_absent(names: Seq<Seq<char>>, key: Seq<char>)
    requires
        !names.contains(key),
    ensures
        spec_excluding(names, key) == names,
    decreases names.len(),
{
    if names.len() > 0 {
        assert(names[0] != key);
        assert(names.drop_first().contains(key) ==> names.contains(key));
        lemma_excluding_absent(names.drop_first(), key);
        assert(seq![names[0]] + names.drop_first() =~= names);
    }
}

/// Law: exclusion removes exactly the entries equal to the key — every
/// other name survives it, and no entry equal to the key does.
pub proof fn lemma_excluding_members(names: Seq<Seq<char>>, key: Seq<char>, n: Seq<char>)
    ensures
        spec_excluding(names, key).contains(n) <==> (names.contains(n) && n != key),
    decreases names.len(),
{
    if names.len() > 0 {
        let tail = names.drop_first();
        lemma_excluding_members(tail, key, n);
        assert(tail.contains(n) ==> names.contains(n)) by {
            if tail.contains(n) {
                let j = choose|j: int| 0 <= j < tail.len() && tail[j] == n;
                assert(names[j + 1] == n);
            }
        }
        assert(names.contains(n) && names[0] != n ==> tail.contains(n)) by {
            if names.contains(n) {
                let j = choose|j: int| 0 <= j < names.len() && names[j] == n;
                if names[0] != n {
                    assert(tail[j - 1] == n);
                }
            }
        }
        if names[0] == key {
            assert(spec_excluding(names, key) == spec_excluding(tail, key));
        } else {
            let ex = spec_excluding(tail, key);
            let whole = seq![names[0]] + ex;
            assert(spec_excluding(names, key) == whole);
            assert(ex.contains(n) ==> whole.contains(n)) by {
                if ex.contains(n) {
                    let j = choose|j: int| 0 <= j < ex.len() && ex[j] == n;
                    assert(whole[j + 1] == n);
                }
            }
            assert(whole[0] == names[0]);
            assert(whole.contains(n) && whole[0] != n ==> ex.contains(n)) by {
                if whole.contains(n) {
                    let j = choose|j: int| 0 <= j < whole.len() && whole[j] == n;
                    if whole[0] != n {
                        assert(ex[j - 1] == n);
                    }
                }
            }
        }
    }
}

/// The exclusion key that the active-session query's output yields:
/// the decoded text with one trailing line ending removed.
pub open spec fn spec_active_key(s: Seq<char>) -> Seq<char> {
    if s.len() > 0 && s.last() == '\n' {
        chomp_cr(s.drop_last())
    } else {
        chomp_cr(s)
    }
}

/// The names joined by newlines, `acc` holding what is joined so far.
pub open spec fn spec_join_acc(names: Seq<Seq<char>>, acc: Seq<char>) -> Seq<char>
    decreases names.len(),
{
    if names.len() == 0 {
        acc
    } else {
        spec_join_acc(names.drop_first(), acc + seq!['\n'] + names[0])
    }
}

/// The names joined by single newlines, empty when there is none.
pub open spec fn spec_joined(names: Seq<Seq<char>>) -> Seq<char> {
    if names.len() == 0 {
        Seq::empty()
    } else {
        spec_join_acc(names.drop_first(), names[0])
    }
}

impl<'s> TmwRunner<'s> {
    pub fn new(settings: &'s Settings) -> (r: Self)
        ensures
            r.settings == settings,
    {
        Self { settings }
    }

    /// The socket-namespace prefix of every invocation.
    fn socket_prefix(&self) -> (r: Vec<String>)
        ensures
            r.deep_view() == spec_socket_prefix(spec_namespace(*self.settings)),
    {
        let mut v: Vec<String> = Vec::new();
        match &self.settings.tmux {
            Some(t) => match &t.socket_name {
                Some(sock) => {
                    v.push("-L".to_owned());
                    v.push(sock.clone());
                },
                None => {},
            },
            None => {},
        }
        proof {
            assert(v.deep_view() =~= spec_socket_prefix(spec_namespace(*self.settings)));
        }
        v
    }

    /// First workspace of the registry whose name is `name`, by
    /// declaration order.
    pub fn find_workspace(&self, name: &String) -> (r: Option<Workspace>)
        ensures
            r == spec_find_workspace(self.settings.workspaces@, name@),
    {
        let ws = &self.settings.workspaces;
        let ghost all = ws@;
        let n = ws.len();
        let mut k: usize = 0;
        proof {
            assert(all.skip(0) =~= all);
        }
        while k < n
            invariant
                k <= n,
                n == ws.len(),
                all == ws@,
                all == self.settings.workspaces@,
                spec_find_workspace(all, name@) == spec_find_workspace(all.skip(k as int), name@),
            decreases n - k,
        {
            proof {
                assert(all.skip(k as int)[0] == all[k as int]);
                assert(all.skip(k as int).drop_first() =~= all.skip(k as int + 1));
            }
            let w = &ws[k];
            if crate::resolver::str_eq(w.name.as_str(), name.as_str()) {
                let dir = match &w.directory.text {
                    Some(d) => DirPath { text: Some(d.clone()) },
                    None => DirPath { text: None },
                };
                let found = Workspace { name: w.name.clone(), directory: dir };
                proof {
                    assert(found == all[k as int]);
                }
                return Some(found);
            }
            k = k + 1;
        }
        proof {
            assert(all.skip(n as int) =~= Seq::<Workspace>::empty());
        }
        None
    }

    fn probe_args(&self, name: &String) -> (r: Vec<String>)
        ensures
            r.deep_view() == spec_probe_args(spec_namespace(*self.settings), name@),
    {
        let mut v = self.socket_prefix();
        v.push("has-session".to_owned());
        v.push("-t".to_owned());
        v.push(name.clone());
        proof {
            assert(v.deep_view() =~= spec_probe_args(spec_namespace(*self.settings), name@));
        }
        v
    }

    fn create_args(&self, name: &String, dir: &String) -> (r: Vec<String>)
        ensures
            r.deep_view() == spec_create_args(spec_namespace(*self.settings), name@, dir@),
    {
        let mut v = self.socket_prefix();
        v.push("new-session".to_owned());
        v.push("-d".to_owned());
        v.push("-s".to_owned());
        v.push(name.clone());
        v.push("-c".to_owned());
        v.push(dir.clone());
        proof {
            assert(v.deep_view() =~= spec_create_args(spec_namespace(*self.settings), name@, dir@));
        }
        v
    }

    fn switch_args(&self, name: &String) -> (r: Vec<String>)
        ensures
            r.deep_view() == spec_switch_args(spec_namespace(*self.settings), name@),
    {
        let mut v = self.socket_prefix();
        v.push("switch-client".to_owned());
        v.push("-t".to_owned());
        v.push(name.clone());
        proof {
            assert(v.deep_view() =~= spec_switch_args(spec_namespace(*self.settings), name@));
        }
        v
    }

    /// The invocation that lists all sessions; its result is what
    /// `preview_workspace` interprets.
    pub fn list_sessions_args(&self) -> (r: Vec<String>)
        ensures
            r.deep_view() == spec_list_sessions_args(spec_namespace(*self.settings)),
    {
        let mut v = self.socket_prefix();
        v.push("ls".to_owned());
        v.push("-F".to_owned());
        v.push("#{session_id},#{session_name}".to_owned());
        proof {
            assert(v.deep_view() =~= spec_list_sessions_args(spec_namespace(*self.settings)));
        }
        v
    }

    fn active_args(&self) -> (r: Vec<String>)
        ensures
            r.deep_view() == spec_active_args(spec_namespace(*self.settings)),
    {
        let mut v = self.socket_prefix();
        v.push("display-message".to_owned());
        v.push("-p".to_owned());
        v.push("#S".to_owned());
        proof {
            assert(v.deep_view() =~= spec_active_args(spec_namespace(*self.settings)));
        }
        v
    }

    fn capture_args(&self, id: &str) -> (r: Vec<String>)
        ensures
            r.deep_view() == spec_capture_args(spec_namespace(*self.settings), id@),
    {
        let mut v = self.socket_prefix();
        v.push("capture-pane".to_owned());
        v.push("-ep".to_owned());
        v.push("-t".to_owned());
        v.push(id.to_owned());
        proof {
            assert(v.deep_view() =~= spec_capture_args(spec_namespace(*self.settings), id@));
        }
        v
    }

    /// Begins a switch: a name that matches no workspace fails with
    /// `UnknownWorkspace` before any invocation is requested; a known
    /// name yields the existence probe, the workspace's directory
    /// carried along for the creation path.
    pub fn switch_workspace(&self, name: &String) -> (r: Result<SwitchAction, TmwError>)
        ensures
            spec_find_workspace(self.settings.workspaces@, name@) is None ==> (r matches Err(e)
                && e matches TmwError::UnknownWorkspace(n) && n@ == name@),
            spec_find_workspace(self.settings.workspaces@, name@) matches Some(w) ==> (r matches Ok(
                a,
            ) && a matches SwitchAction::Invoke { args, stage } && args.deep_view()
                == spec_probe_args(spec_namespace(*self.settings), name@) && (stage matches
            SwitchStage::Probed { dir } && dir == w.directory)),
    {
        match self.find_workspace(name) {
            None => Err(TmwError::UnknownWorkspace(name.clone())),
            Some(w) => Ok(
                SwitchAction::Invoke {
                    args: self.probe_args(name),
                    stage: SwitchStage::Probed { dir: w.directory },
                },
            ),
        }
    }

    /// Carries a switch forward once an invocation result is in. After
    /// the probe, a running session is switched to as it stands and a
    /// missing one is created first — unless the directory has no
    /// textual form, which is rejected before anything is created.
    /// Creation and switching are checked invocations; the probe's
    /// standard error is discarded.
    pub fn switch_step(&self, name: &String, stage: SwitchStage, result: CommandResult) -> (r:
        Result<SwitchAction, TmwError>)
        ensures
            match stage {
                SwitchStage::Probed { dir } => match spec_after_probe(result.exit_success, dir) {
                    SwitchPlan::SwitchOnly => r matches Ok(a) && a matches SwitchAction::Invoke {
                        args,
                        stage: next,
                    } && args.deep_view() == spec_switch_args(
                        spec_namespace(*self.settings),
                        name@,
                    ) && next is Switched,
                    SwitchPlan::CreateThenSwitch(d) => r matches Ok(a) && a matches
                    SwitchAction::Invoke { args, stage: next } && args.deep_view()
                        == spec_create_args(spec_namespace(*self.settings), name@, d)
                        && next is Created,
                    SwitchPlan::RejectDir => r == Err::<SwitchAction, TmwError>(
                        TmwError::InvalidDirectory,
                    ),
                },
                SwitchStage::Created => if result.exit_success {
                    r matches Ok(a) && a matches SwitchAction::Invoke { args, stage: next }
                        && args.deep_view() == spec_switch_args(
                        spec_namespace(*self.settings),
                        name@,
                    ) && next is Switched
                } else {
                    r matches Err(e) && is_tool_failure(e, result.stderr@)
                },
                SwitchStage::Switched => if result.exit_success {
                    r == Ok::<SwitchAction, TmwError>(SwitchAction::Done)
                } else {
                    r matches Err(e) && is_tool_failure(e, result.stderr@)
                },
            },
    {
        match stage {
            SwitchStage::Probed { dir } => {
                if result.exit_success {
                    Ok(
                        SwitchAction::Invoke {
                            args: self.switch_args(name),
                            stage: SwitchStage::Switched,
                        },
                    )
                } else {
                    match dir.text {
                        None => Err(TmwError::InvalidDirectory),
                        Some(d) => Ok(
                            SwitchAction::Invoke {
                                args: self.create_args(name, &d),
                                stage: SwitchStage::Created,
                            },
                        ),
                    }
                }
            },
            SwitchStage::Created => match validated_output(result) {
                Ok(_) => Ok(
                    SwitchAction::Invoke {
                        args: self.switch_args(name),
                        stage: SwitchStage::Switched,
                    },
                ),
                Err(e) => Err(e),
            },
            SwitchStage::Switched => match validated_output(result) {
                Ok(_) => Ok(SwitchAction::Done),
                Err(e) => Err(e),
            },
        }
    }

    /// All workspace names, in registry declaration order.
    fn all_names(&self) -> (r: Vec<String>)
        ensures
            r.deep_view() == spec_workspace_names(self.settings.workspaces@),
    {
        let ws = &self.settings.workspaces;
        let ghost names = spec_workspace_names(self.settings.workspaces@);
        let n = ws.len();
        let mut out: Vec<String> = Vec::new();
        let mut k: usize = 0;
        proof {
            assert(out.deep_view() =~= names.take(0));
        }
        while k < n
            invariant
                k <= n,
                n == ws.len(),
                ws@ == self.settings.workspaces@,
                names == spec_workspace_names(ws@),
                out.deep_view() == names.take(k as int),
            decreases n - k,
        {
            let nm = ws[k].name.clone();
            let ghost before = out.deep_view();
            out.push(nm);
            proof {
                assert(out.deep_view() =~= before.push(ws@[k as int].name@));
                assert(names.take(k as int + 1) =~= before.push(names[k as int]));
                assert(names[k as int] == ws@[k as int].name@);
            }
            k = k + 1;
        }
        proof {
            assert(names.take(n as int) =~= names);
        }
        out
    }

    /// Begins a listing: without the exclusion it is answered at once
    /// from the registry; with it, the active session must be queried
    /// first and the result handed to `list_step`.
    pub fn list_workspaces(&self, exclude_active: bool) -> (r: ListAction)
        ensures
            exclude_active ==> (r matches ListAction::Invoke { args } && args.deep_view()
                == spec_active_args(spec_namespace(*self.settings))),
            !exclude_active ==> (r matches ListAction::Done { names } && names.deep_view()
                == spec_workspace_names(self.settings.workspaces@)),
    {
        if exclude_active {
            ListAction::Invoke { args: self.active_args() }
        } else {
            ListAction::Done { names: self.all_names() }
        }
    }

    /// Finishes a listing with exclusion: a failed active-session query
    /// fails the whole operation; a successful one yields the registry
    /// names minus any entry equal to the active session's name.
    pub fn list_step(&self, result: CommandResult) -> (r: Result<Vec<String>, TmwError>)
        ensures
            !result.exit_success ==> (r matches Err(e) && is_tool_failure(e, result.stderr@)),
            result.exit_success && !valid_utf8(result.stdout@) ==> r == Err::<
                Vec<String>,
                TmwError,
            >(TmwError::Encoding),
            result.exit_success && valid_utf8(result.stdout@) ==> (r matches Ok(names)
                && names.deep_view() == spec_excluding(
                spec_workspace_names(self.settings.workspaces@),
                spec_active_key(decode_utf8(result.stdout@)),
            )),
    {
        match validated_output(result) {
            Err(e) => Err(e),
            Ok(bytes) => match decode_output(bytes) {
                Err(e) => Err(e),
                Ok(text) => {
                    let key = active_key(text.as_str());
                    Ok(excluding(self.all_names(), key.as_str()))
                },
            },
        }
    }

    /// Interprets the session listing for a preview of `name`. The name
    /// is deliberately not validated against the registry: a session
    /// started outside this tool's knowledge is still previewable. A
    /// name with no matching session yields the informational message
    /// and success, not a failure; a match yields the pane-capture
    /// invocation for the trimmed session id, whose result goes to
    /// `preview_capture_step`.
    pub fn preview_workspace(&self, name: &String, listing: CommandResult) -> (r: Result<
        PreviewOutcome,
        TmwError,
    >)
        ensures
            !listing.exit_success ==> (r matches Err(e) && is_tool_failure(e, listing.stderr@)),
            listing.exit_success && !valid_utf8(listing.stdout@) ==> r == Err::<
                PreviewOutcome,
                TmwError,
            >(TmwError::Encoding),
            listing.exit_success && valid_utf8(listing.stdout@) ==> match find_session_spec(
                decode_utf8(listing.stdout@),
                name@,
            ) {
                None => r matches Ok(o) && o matches PreviewOutcome::NotRunning { message }
                    && message@ == spec_not_running_message(name@),
                Some(id) => r matches Ok(o) && o matches PreviewOutcome::Capture { args }
                    && args.deep_view() == spec_capture_args(
                    spec_namespace(*self.settings),
                    trim_spec(id),
                ),
            },
    {
        match validated_output(listing) {
            Err(e) => Err(e),
            Ok(bytes) => match decode_output(bytes) {
                Err(e) => Err(e),
                Ok(text) => match find_session(text.as_str(), name.as_str()) {
                    None => Ok(
                        PreviewOutcome::NotRunning {
                            message: String::from_str("Workspace ").concat(name.as_str()).concat(
                                " is not running",
                            ),
                        },
                    ),
                    Some(session) => {
                        let trimmed = trim_chars(session.id.as_str());
                        Ok(PreviewOutcome::Capture { args: self.capture_args(trimmed) })
                    },
                },
            },
        }
    }

    /// Finishes a preview whose capture invocation has run: success
    /// passes through, failure carries the tool's standard-error text.
    pub fn preview_capture_step(&self, result: CommandResult) -> (r: Result<(), TmwError>)
        ensures
            result.exit_success ==> r is Ok,
            !result.exit_success ==> (r matches Err(e) && is_tool_failure(e, result.stderr@)),
    {
        match validated_output(result) {
            Ok(_) => Ok(()),
            Err(e) => Err(e),
        }
    }
}

/// The registry names with every entry equal to `key` left out.
fn excluding(names: Vec<String>, key: &str) -> (r: Vec<String>)
    ensures
        r.deep_view() == spec_excluding(names.deep_view(), key@),
{
    let ghost all = names.deep_view();
    let n = names.len();
    let mut out: Vec<String> = Vec::new();
    let mut k: usize = 0;
    proof {
        assert(all.skip(0) =~= all);
        assert(out.deep_view() + spec_excluding(all, key@) =~= spec_excluding(all, key@));
    }
    while k < n
        invariant
            k <= n,
            n == names.len(),
            all == names.deep_view(),
            spec_excluding(all, key@) == out.deep_view() + spec_excluding(
                all.skip(k as int),
                key@,
            ),
        decreases n - k,
    {
        proof {
            assert(all.skip(k as int)[0] == all[k as int]);
            assert(all.skip(k as int).drop_first() =~= all.skip(k as int + 1));
        }
        if !crate::resolver::str_eq(names[k].as_str(), key) {
            let ghost before = out.deep_view();
            out.push(names[k].clone());
            proof {
                assert(out.deep_view() =~= before.push(all[k as int]));
                assert(before + (seq![all[k as int]] + spec_excluding(
                    all.skip(k as int + 1),
                    key@,
                )) =~= out.deep_view() + spec_excluding(all.skip(k as int + 1), key@));
            }
        }
        k = k + 1;
    }
    proof {
        assert(all.skip(n as int) =~= Seq::<Seq<char>>::empty());
        assert(out.deep_view() + spec_excluding(Seq::empty(), key@) =~= out.deep_view());
    }
    out
}

/// The exclusion key that the active-session query's output yields:
/// the decoded text with one trailing line ending removed.
fn active_key(s: &str) -> (r: String)
    ensures
        r@ == spec_active_key(s@),
{
    let n = s.unicode_len();
    let mut end = n;
    let ghost whole = s@;
    if end > 0 && s.get_char(end - 1) == '\n' {
        end = end - 1;
    }
    let ghost stripped = whole.subrange(0, end as int);
    proof {
        if whole.len() > 0 && whole.last() == '\n' {
            assert(stripped =~= whole.drop_last());
        } else {
            assert(stripped =~= whole);
        }
    }
    if end > 0 && s.get_char(end - 1) == '\r' {
        end = end - 1;
    }
    proof {
        if stripped.len() > 0 && stripped.last() == '\r' {
            assert(stripped[stripped.len() - 1] == whole[end as int]);
            assert(whole.subrange(0, end as int) =~= stripped.drop_last());
        } else {
            assert(whole.subrange(0, end as int) =~= stripped);
        }
    }
    s.substring_char(0, end).to_owned()
}

/// Renders the names one per line, empty when there is none.
pub fn render_list(names: &Vec<String>) -> (r: String)
    ensures
        r@ == spec_joined(names.deep_view()),
{
    let ghost ldv = names.deep_view();
    let n = names.len();
    if n == 0 {
        return String::new();
    }
    let mut acc: String = names[0].clone();
    let mut k: usize = 1;
    proof {
        assert(ldv.drop_first() =~= ldv.skip(1));
    }
    while k < n
        invariant
            1 <= k <= n,
            n == names.len(),
            ldv == names.deep_view(),
            spec_joined(ldv) == spec_join_acc(ldv.skip(k as int), acc@),
        decreases n - k,
    {
        proof {
            assert(ldv.skip(k as int)[0] == ldv[k as int]);
            assert(ldv.skip(k as int).drop_first() =~= ldv.skip(k as int + 1));
        }
        let ghost acc_before = acc@;
        acc.append("\n");
        acc.append(names[k].as_str());
        proof {
            reveal_strlit("\n");
            assert("\n"@ =~= seq!['\n']);
            assert(acc@ =~= acc_before + seq!['\n'] + ldv[k as int]);
        }
        k = k + 1;
    }
    proof {
        assert(ldv.skip(n as int) =~= Seq::<Seq<char>>::empty());
    }
    acc
}

/// Law: after a successful switch of `name` the tool's listing holds a
/// line `id,name`; any listing with such a line resolves the name to a
/// session, so previewing it never takes the "not running" path.
pub proof fn lemma_preview_after_switch(text: Seq<char>, name: Seq<char>)
    requires
        exists|i: int|
            0 <= i < crate::resolver::split_lines(text).len() && ((
            #[trigger] crate::resolver::spec_split_once(
                crate::resolver::split_lines(text)[i],
            )) matches Some(p) && p.1 == name),
    ensures
        find_session_spec(text, name) is Some,
{
    crate::resolver::lemma_session_found(crate::resolver::split_lines(text), name);
}

} // verus!
