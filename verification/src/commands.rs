//! Command dispatch decisions: what a user command asks of the workspace
//! store and the display backend, with the 1-based indices of the
//! configuration boundary checked and converted to the 0-based form the
//! collaborators use; admission rules for newly mapped windows; and
//! status sampling.

use vstd::prelude::*;
use crate::events::Window;
use crate::layout::LayoutMsg;

verus! {

/// The given parts interleaved with single spaces: the inverse of
/// splitting a string at every space.
pub open spec fn join_spaces(parts: Seq<Seq<char>>) -> Seq<char>
    decreases parts.len(),
{
    if parts.len() == 0 {
        Seq::empty()
    } else if parts.len() == 1 {
        parts[0]
    } else {
        parts[0] + seq![' '] + join_spaces(parts.drop_first())
    }
}

/// No part contains a space: together with `join_spaces` this pins the
/// split of a string down uniquely.
pub open spec fn space_free(parts: Seq<Seq<char>>) -> bool {
    forall|i: int| 0 <= i < parts.len() ==> !(#[trigger] parts[i]).contains(' ')
}

/// Appending one more part appends it to the joined string after a
/// space, except to an empty part list.
proof fn lemma_join_push(parts: Seq<Seq<char>>, x: Seq<char>)
    ensures
        parts.len() == 0 ==> join_spaces(parts.push(x)) == x,
        parts.len() >= 1 ==> join_spaces(parts.push(x)) =~= join_spaces(parts) + seq![' '] + x,
    decreases parts.len(),
{
    if parts.len() == 0 {
        assert(parts.push(x)[0] =~= x);
    } else if parts.len() == 1 {
        assert(parts.push(x).drop_first() =~= seq![x]);
        assert(parts.push(x)[0] == parts[0]);
        assert(join_spaces(seq![x]) == x);
    } else {
        lemma_join_push(parts.drop_first(), x);
        assert(parts.push(x).drop_first() =~= parts.drop_first().push(x));
        assert(parts.push(x)[0] == parts[0]);
        assert(parts[0] + seq![' '] + (join_spaces(parts.drop_first()) + seq![' '] + x) =~= (
        parts[0] + seq![' '] + join_spaces(parts.drop_first())) + seq![' '] + x);
    }
}

/// Law: the contract of `split_command` is categorical: two space-free
/// part lists that join with single spaces to the same string are the
/// same list, so the characterization admits exactly one split.
pub proof fn lemma_split_unique(a: Seq<Seq<char>>, b: Seq<Seq<char>>)
    requires
        a.len() >= 1,
        b.len() >= 1,
        space_free(a),
        space_free(b),
        join_spaces(a) == join_spaces(b),
    ensures
        a == b,
    decreases a.len(),
{
    let s = join_spaces(a);
    if a.len() == 1 && b.len() == 1 {
        assert(a[0] == s && b[0] == s);
        assert(a =~~= b);
    } else if a.len() == 1 {
        // the single part of `a` is the whole join, yet the join of two
        // or more parts carries a space, which no part of `a` may
        lemma_join_has_space(b);
        assert(a[0].contains(' '));
        assert(false);
    } else if b.len() == 1 {
        lemma_join_has_space(a);
        assert(b[0].contains(' '));
        assert(false);
    } else {
        let a0 = a[0];
        let b0 = b[0];
        let ta = join_spaces(a.drop_first());
        let tb = join_spaces(b.drop_first());
        if a0.len() < b0.len() {
            assert(s[a0.len() as int] == ' ');
            assert(s[a0.len() as int] == b0[a0.len() as int]);
            assert(b0.contains(' '));
            assert(false);
        }
        if b0.len() < a0.len() {
            assert(s[b0.len() as int] == ' ');
            assert(s[b0.len() as int] == a0[b0.len() as int]);
            assert(a0.contains(' '));
            assert(false);
        }
        assert forall|i: int| 0 <= i < a0.len() implies a0[i] == b0[i] by {
            assert(s[i] == a0[i]);
            assert(join_spaces(b)[i] == b0[i]);
        }
        assert(a0 =~= b0);
        assert(ta =~= tb) by {
            assert(ta =~= s.subrange(a0.len() as int + 1, s.len() as int));
            assert(tb =~= s.subrange(b0.len() as int + 1, s.len() as int));
        }
        assert(space_free(a.drop_first())) by {
            assert(forall|i: int|
                0 <= i < a.drop_first().len() ==> #[trigger] a.drop_first()[i] == a[i + 1]);
        }
        assert(space_free(b.drop_first())) by {
            assert(forall|i: int|
                0 <= i < b.drop_first().len() ==> #[trigger] b.drop_first()[i] == b[i + 1]);
        }
        lemma_split_unique(a.drop_first(), b.drop_first());
        assert forall|i: int| 0 <= i < a.len() implies a[i] == b[i] by {
            if i > 0 {
                assert(a[i] == a.drop_first()[i - 1]);
                assert(b[i] == b.drop_first()[i - 1]);
            }
        }
        assert(a.len() == b.len());
        assert(a =~= b);
    }
}

/// The join of two or more parts carries a space right after its head.
proof fn lemma_join_has_space(b: Seq<Seq<char>>)
    requires
        b.len() >= 2,
    ensures
        join_spaces(b).contains(' '),
{
    assert(join_spaces(b)[b[0].len() as int] == ' ');
}

/// Splits a command line at every space, as the spawn step needs it:
/// the first part is the program, the rest are its arguments. The parts
/// contain no space and, joined with single spaces, give back the input.
pub fn split_command(cmd: &str) -> (r: Vec<String>)
    ensures
        r@.len() >= 1,
        join_spaces(r@.map_values(|s: String| s@)) == cmd@,
        space_free(r@.map_values(|s: String| s@)),
{
    let n = cmd.unicode_len();
    let mut r: Vec<String> = Vec::new();
    let mut seg_start: usize = 0;
    let mut i: usize = 0;
    while i < n
        invariant
            n == cmd@.len(),
            0 <= seg_start <= i <= n,
            join_spaces(r@.map_values(|s: String| s@).push(cmd@.subrange(seg_start as int, i as int)))
                =~= cmd@.subrange(0, i as int),
            space_free(r@.map_values(|s: String| s@)),
            !cmd@.subrange(seg_start as int, i as int).contains(' '),
        decreases n - i,
    {
        let ghost parts = r@.map_values(|s: String| s@);
        let ghost seg = cmd@.subrange(seg_start as int, i as int);
        let c = cmd.get_char(i);
        if c == ' ' {
            let piece = cmd.substring_char(seg_start, i).to_owned();
            r.push(piece);
            proof {
                assert(r@.map_values(|s: String| s@) =~= parts.push(seg));
                lemma_join_push(parts, seg);
                lemma_join_push(parts.push(seg), cmd@.subrange(i as int + 1, i as int + 1));
                assert(cmd@.subrange(i as int + 1, i as int + 1) =~= Seq::<char>::empty());
                assert(cmd@.subrange(0, i as int + 1) =~= cmd@.subrange(0, i as int) + seq![' ']);
                assert(join_spaces(parts.push(seg).push(cmd@.subrange(i as int + 1, i as int + 1)))
                    =~= cmd@.subrange(0, i as int + 1));
            }
            seg_start = i + 1;
        } else {
            proof {
                lemma_join_push(parts, seg);
                lemma_join_push(parts, cmd@.subrange(seg_start as int, i as int + 1));
                assert(cmd@.subrange(seg_start as int, i as int + 1) =~= seg + seq![c]);
                assert(cmd@.subrange(0, i as int + 1) =~= cmd@.subrange(0, i as int) + seq![c]);
                if parts.len() == 0 {
                } else {
                    assert(join_spaces(parts) + seq![' '] + (seg + seq![c]) =~= (join_spaces(parts)
                        + seq![' '] + seg) + seq![c]);
                }
            }
        }
        i = i + 1;
    }
    let piece = cmd.substring_char(seg_start, n).to_owned();
    let ghost parts = r@.map_values(|s: String| s@);
    r.push(piece);
    proof {
        assert(r@.map_values(|s: String| s@) =~= parts.push(cmd@.subrange(seg_start as int, n as int)));
        assert(cmd@.subrange(0, n as int) =~= cmd@);
    }
    r
}

/// A user-invoked action. Workspace and screen indices are 1-based at
/// this boundary, as the configuration writes them.
pub enum Cmd {
    Exec(String),
    SwitchWorkspace(usize),
    SwitchScreen(usize),
    MoveToWorkspace(usize),
    MoveToScreen(usize),
    SendLayoutMsg(LayoutMsg),
    KillClient,
    FocusUp,
    FocusDown,
    FocusMaster,
    SwapUp,
    SwapDown,
    SwapMaster,
}

/// Direction tag of a focus or stack move; the workspace store owns the
/// index arithmetic behind it.
#[derive(Clone, Copy, PartialEq, Eq, Structural, Debug)]
pub enum MoveOp {
    Up,
    Down,
    Swap,
}

/// The operation a dispatched command asks of the collaborators, with
/// every index already converted to its 0-based form.
pub enum Action {
    /// Spawn the program with the arguments as a detached process that
    /// the core never waits on.
    Spawn(String, Vec<String>),
    /// Make this workspace the active one.
    SwitchTo(usize),
    /// Make the workspace shown on this screen the active one.
    SwitchToScreen(usize),
    /// Move the focused window to this workspace.
    MoveWindowTo(usize),
    /// Move the focused window to the workspace shown on this screen.
    MoveWindowToScreen(usize),
    /// Deliver the message to the active workspace's layout instance,
    /// then redraw that workspace.
    SendLayoutMsg(LayoutMsg),
    /// Ask the backend to terminate the focused window's client.
    KillFocusedWindow,
    /// Move focus within the active workspace's window order.
    MoveFocus(MoveOp),
    /// Reorder the active workspace's window stack.
    MoveWindow(MoveOp),
}

/// A command that names a workspace or screen the current set does not
/// have is refused rather than handed on out of range.
#[derive(Clone, Copy, PartialEq, Eq, Structural, Debug)]
pub enum DispatchError {
    WorkspaceOutOfRange(usize),
    ScreenOutOfRange(usize),
}

impl Cmd {
    /// Decides which operation this command asks of the workspace store
    /// and the display backend, against a set of `workspace_count`
    /// workspaces on `screen_count` screens. 1-based indices are range
    /// checked and decremented; an index of zero or past the set is a
    /// defined error, never an out-of-range request to a collaborator.
    pub fn call(&self, workspace_count: usize, screen_count: usize) -> (r: Result<
        Action,
        DispatchError,
    >)
        ensures
            *self matches Cmd::Exec(cmd) ==> (r matches Ok(a) && a matches Action::Spawn(
                prog,
                args,
            ) && join_spaces(seq![prog@] + args@.map_values(|s: String| s@)) == cmd@ && space_free(
                seq![prog@] + args@.map_values(|s: String| s@),
            )),
            *self matches Cmd::SwitchWorkspace(n) ==> r == (if 1 <= n <= workspace_count {
                Ok::<Action, DispatchError>(Action::SwitchTo((n - 1) as usize))
            } else {
                Err::<Action, DispatchError>(DispatchError::WorkspaceOutOfRange(n))
            }),
            *self matches Cmd::SwitchScreen(n) ==> r == (if 1 <= n <= screen_count {
                Ok::<Action, DispatchError>(Action::SwitchToScreen((n - 1) as usize))
            } else {
                Err::<Action, DispatchError>(DispatchError::ScreenOutOfRange(n))
            }),
            *self matches Cmd::MoveToWorkspace(n) ==> r == (if 1 <= n <= workspace_count {
                Ok::<Action, DispatchError>(Action::MoveWindowTo((n - 1) as usize))
            } else {
                Err::<Action, DispatchError>(DispatchError::WorkspaceOutOfRange(n))
            }),
            *self matches Cmd::MoveToScreen(n) ==> r == (if 1 <= n <= screen_count {
                Ok::<Action, DispatchError>(Action::MoveWindowToScreen((n - 1) as usize))
            } else {
                Err::<Action, DispatchError>(DispatchError::ScreenOutOfRange(n))
            }),
            *self matches Cmd::SendLayoutMsg(m) ==> r == Ok::<Action, DispatchError>(
                Action::SendLayoutMsg(m),
            ),
            *self matches Cmd::KillClient ==> r == Ok::<Action, DispatchError>(
                Action::KillFocusedWindow,
            ),
            *self matches Cmd::FocusUp ==> r == Ok::<Action, DispatchError>(
                Action::MoveFocus(MoveOp::Up),
            ),
            *self matches Cmd::FocusDown ==> r == Ok::<Action, DispatchError>(
                Action::MoveFocus(MoveOp::Down),
            ),
            *self matches Cmd::FocusMaster ==> r == Ok::<Action, DispatchError>(
                Action::MoveFocus(MoveOp::Swap),
            ),
            *self matches Cmd::SwapUp ==> r == Ok::<Action, DispatchError>(
                Action::MoveWindow(MoveOp::Up),
            ),
            *self matches Cmd::SwapDown ==> r == Ok::<Action, DispatchError>(
                Action::MoveWindow(MoveOp::Down),
            ),
            *self matches Cmd::SwapMaster ==> r == Ok::<Action, DispatchError>(
                Action::MoveWindow(MoveOp::Swap),
            ),
    {
        match self {
            Cmd::Exec(cmd) => {
                let mut parts = split_command(cmd.as_str());
                let ghost full = parts@;
                let prog = parts.remove(0);
                proof {
                    assert(seq![prog] + parts@ =~= full);
                    assert(seq![prog@] + parts@.map_values(|s: String| s@) =~= (seq![prog]
                        + parts@).map_values(|s: String| s@));
                }
                Ok(Action::Spawn(prog, parts))
            },
            Cmd::SwitchWorkspace(n) => {
                if 1 <= *n && *n <= workspace_count {
                    Ok(Action::SwitchTo(*n - 1))
                } else {
                    Err(DispatchError::WorkspaceOutOfRange(*n))
                }
            },
            Cmd::SwitchScreen(n) => {
                if 1 <= *n && *n <= screen_count {
                    Ok(Action::SwitchToScreen(*n - 1))
                } else {
                    Err(DispatchError::ScreenOutOfRange(*n))
                }
            },
            Cmd::MoveToWorkspace(n) => {
                if 1 <= *n && *n <= workspace_count {
                    Ok(Action::MoveWindowTo(*n - 1))
                } else {
                    Err(DispatchError::WorkspaceOutOfRange(*n))
                }
            },
            Cmd::MoveToScreen(n) => {
                if 1 <= *n && *n <= screen_count {
                    Ok(Action::MoveWindowToScreen(*n - 1))
                } else {
                    Err(DispatchError::ScreenOutOfRange(*n))
                }
            },
            Cmd::SendLayoutMsg(m) => Ok(Action::SendLayoutMsg(*m)),
            Cmd::KillClient => Ok(Action::KillFocusedWindow),
            Cmd::FocusUp => Ok(Action::MoveFocus(MoveOp::Up)),
            Cmd::FocusDown => Ok(Action::MoveFocus(MoveOp::Down)),
            Cmd::FocusMaster => Ok(Action::MoveFocus(MoveOp::Swap)),
            Cmd::SwapUp => Ok(Action::MoveWindow(MoveOp::Up)),
            Cmd::SwapDown => Ok(Action::MoveWindow(MoveOp::Down)),
            Cmd::SwapMaster => Ok(Action::MoveWindow(MoveOp::Swap)),
        }
    }
}

/// One admission rule: windows whose class name equals `class_name`
/// receive the placement decision `cmd`.
pub struct ManageHook {
    pub class_name: String,
    pub cmd: CmdManage,
}

/// Placement decision for a newly mapped window. `Move` is 1-based at
/// this boundary. `Float`, `Fullscreen` and `Ignore` are declared but
/// deliberately unimplemented: their geometry semantics are an open
/// product decision, so invoking them is reported as unsupported rather
/// than guessed at.
#[derive(Clone, Copy, PartialEq, Eq, Structural, Debug)]
pub enum CmdManage {
    Move(usize),
    Float,
    Fullscreen,
    Ignore,
}

/// What the admission step asks of the collaborators: add the window to
/// the workspace (0-based) and focus it there.
#[derive(Clone, Copy, PartialEq, Eq, Structural, Debug)]
pub struct ManagePlacement {
    pub workspace: usize,
    pub window: Window,
}

/// Why a placement decision could not be carried out.
#[derive(Clone, Copy, PartialEq, Eq, Structural, Debug)]
pub enum ManageError {
    /// The rule names a workspace the current set does not have, or
    /// names index zero at the 1-based boundary.
    WorkspaceOutOfRange(usize),
    /// The decision's semantics are deliberately undefined.
    Unsupported,
}

/// The decision of the first rule whose class name equals `class`, if
/// any rule matches.
pub open spec fn first_match(hooks: Seq<ManageHook>, class: Seq<char>) -> Option<CmdManage>
    decreases hooks.len(),
{
    if hooks.len() == 0 {
        Option::None
    } else if hooks[0].class_name@ == class {
        Option::Some(hooks[0].cmd)
    } else {
        first_match(hooks.drop_first(), class)
    }
}

/// Evaluates the ordered rule table against a newly mapped window's
/// class name: the first match wins; with no match the caller's default
/// decision applies.
pub fn run_manage_hooks(hooks: &Vec<ManageHook>, class: &String, default: CmdManage) -> (r:
    CmdManage)
    ensures
        r == (match first_match(hooks@, class@) {
            Option::Some(c) => c,
            Option::None => default,
        }),
{
    let n = hooks.len();
    let mut i: usize = 0;
    proof {
        assert(hooks@.skip(0) =~= hooks@);
    }
    while i < n
        invariant
            n == hooks@.len(),
            0 <= i <= n,
            first_match(hooks@, class@) == first_match(hooks@.skip(i as int), class@),
        decreases n - i,
    {
        if hooks[i].class_name == *class {
            proof {
                assert(hooks@.skip(i as int)[0] == hooks@[i as int]);
            }
            return hooks[i].cmd;
        }
        proof {
            assert(hooks@.skip(i as int)[0] == hooks@[i as int]);
            assert(hooks@.skip(i as int).drop_first() =~= hooks@.skip(i as int + 1));
        }
        i = i + 1;
    }
    proof {
        assert(hooks@.skip(n as int) =~= Seq::<ManageHook>::empty());
    }
    default
}

impl CmdManage {
    /// Decides what the placement asks of the workspace store for a new
    /// window, against a set of `workspace_count` workspaces. A 1-based
    /// move target is range checked and decremented; the deliberately
    /// unimplemented decisions report `Unsupported` instead of taking
    /// the process down.
    pub fn call(&self, workspace_count: usize, window: Window) -> (r: Result<
        ManagePlacement,
        ManageError,
    >)
        ensures
            *self matches CmdManage::Move(n) ==> r == (if 1 <= n <= workspace_count {
                Ok::<ManagePlacement, ManageError>(
                    ManagePlacement { workspace: (n - 1) as usize, window },
                )
            } else {
                Err::<ManagePlacement, ManageError>(ManageError::WorkspaceOutOfRange(n))
            }),
            *self matches CmdManage::Float ==> r == Err::<ManagePlacement, ManageError>(
                ManageError::Unsupported,
            ),
            *self matches CmdManage::Fullscreen ==> r == Err::<ManagePlacement, ManageError>(
                ManageError::Unsupported,
            ),
            *self matches CmdManage::Ignore ==> r == Err::<ManagePlacement, ManageError>(
                ManageError::Unsupported,
            ),
    {
        match self {
            CmdManage::Move(n) => {
                if 1 <= *n && *n <= workspace_count {
                    Ok(ManagePlacement { workspace: *n - 1, window })
                } else {
                    Err(ManageError::WorkspaceOutOfRange(*n))
                }
            },
            CmdManage::Float => Err(ManageError::Unsupported),
            CmdManage::Fullscreen => Err(ManageError::Unsupported),
            CmdManage::Ignore => Err(ManageError::Unsupported),
        }
    }
}

/// A point-in-time status sample, immutable once produced.
pub enum LogInfo {
    /// Workspace tags in order, the focused workspace's index, and the
    /// indices of workspaces with urgency hints.
    Workspaces(Vec<String>, usize, Vec<usize>),
    /// Title of the focused window.
    Title(String),
    /// Name of the active workspace's layout.
    Layout(String),
}

/// A status selector: which sample a log hook draws.
#[derive(Clone, Copy, PartialEq, Eq, Structural, Debug)]
pub enum CmdLogHook {
    Workspaces,
    Title,
    Layout,
}

/// What the status selectors read: a snapshot of the workspace set and
/// the focused window, gathered from the collaborators by the caller
/// just before sampling.
pub struct StatusSnapshot {
    /// Tag of each workspace, in workspace order.
    pub tags: Vec<String>,
    /// Index of the active workspace.
    pub focused_index: usize,
    /// Title of the focused window.
    pub focused_title: String,
    /// Name of the active workspace's layout.
    pub layout_name: String,
}

/// `info` is the sample the selector `sel` draws from `snap`. Urgency
/// hints are not tracked, so the urgency list is always empty.
pub open spec fn is_sample_of(info: LogInfo, sel: CmdLogHook, snap: StatusSnapshot) -> bool {
    match sel {
        CmdLogHook::Workspaces => info matches LogInfo::Workspaces(tags, idx, urgent) && tags@
            .map_values(|s: String| s@) == snap.tags@.map_values(|s: String| s@) && idx
            == snap.focused_index && urgent@.len() == 0,
        CmdLogHook::Title => info matches LogInfo::Title(t) && t@ == snap.focused_title@,
        CmdLogHook::Layout => info matches LogInfo::Layout(n) && n@ == snap.layout_name@,
    }
}

/// A copy of the workspace tags, character for character.
fn clone_tags(tags: &Vec<String>) -> (r: Vec<String>)
    ensures
        r@.map_values(|s: String| s@) == tags@.map_values(|s: String| s@),
{
    let n = tags.len();
    let mut r: Vec<String> = Vec::new();
    let mut i: usize = 0;
    while i < n
        invariant
            n == tags@.len(),
            0 <= i <= n,
            r@.len() == i,
            forall|j: int| 0 <= j < i ==> (#[trigger] r@[j])@ == tags@[j]@,
        decreases n - i,
    {
        r.push(tags[i].clone());
        i = i + 1;
    }
    proof {
        assert(r@.map_values(|s: String| s@) =~= tags@.map_values(|s: String| s@));
    }
    r
}

impl CmdLogHook {
    /// Draws one sample from the snapshot.
    pub fn call(&self, snap: &StatusSnapshot) -> (r: LogInfo)
        ensures
            is_sample_of(r, *self, *snap),
    {
        match self {
            CmdLogHook::Workspaces => LogInfo::Workspaces(
                clone_tags(&snap.tags),
                snap.focused_index,
                Vec::new(),
            ),
            CmdLogHook::Title => LogInfo::Title(snap.focused_title.clone()),
            CmdLogHook::Layout => LogInfo::Layout(snap.layout_name.clone()),
        }
    }
}

/// An ordered list of status selectors. Every invocation re-samples all
/// of them against a fresh snapshot — no caching, no incremental update;
/// the caller renders the resulting sequence and emits it.
pub struct LogHook {
    pub logs: Vec<CmdLogHook>,
}

impl LogHook {
    /// Draws one sample per selector, in selector order.
    pub fn call(&self, snap: &StatusSnapshot) -> (r: Vec<LogInfo>)
        ensures
            r@.len() == self.logs@.len(),
            forall|i: int|
                0 <= i < r@.len() ==> is_sample_of(#[trigger] r@[i], self.logs@[i], *snap),
    {
        let n = self.logs.len();
        let mut r: Vec<LogInfo> = Vec::new();
        let mut i: usize = 0;
        while i < n
            invariant
                n == self.logs@.len(),
                0 <= i <= n,
                r@.len() == i,
                forall|j: int|
                    0 <= j < i ==> is_sample_of(#[trigger] r@[j], self.logs@[j], *snap),
            decreases n - i,
        {
            r.push(self.logs[i].call(snap));
            i = i + 1;
        }
        r
    }
}

} // verus!
