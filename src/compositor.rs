//! What the compositor reports about its windows and workspaces, and the
//! placement commands that the library asks it to carry out.

use vstd::prelude::*;
use vstd::string::*;

verus! {

/// A live window, as the compositor lists it.
#[derive(Debug, PartialEq, Eq)]
pub struct WindowInfo {
    pub id: u64,
    pub title: Option<String>,
    pub app_id: Option<String>,
    /// The workspace that holds the window, if any.
    pub workspace_id: Option<u64>,
    pub is_floating: bool,
}

impl Clone for WindowInfo {
    fn clone(&self) -> (r: Self)
        ensures
            r == *self,
    {
        WindowInfo {
            id: self.id,
            title: self.title.clone(),
            app_id: self.app_id.clone(),
            workspace_id: self.workspace_id,
            is_floating: self.is_floating,
        }
    }
}

/// A workspace, as the compositor lists it.
#[derive(Debug, PartialEq, Eq)]
pub struct WorkspaceInfo {
    pub id: u64,
    pub name: Option<String>,
    pub is_focused: bool,
}

/// What one request sees of the compositor: all of it fetched fresh.
pub struct Snapshot {
    pub focused_window: Option<WindowInfo>,
    /// The name of the focused output.
    pub focused_output: Option<String>,
    pub workspaces: Vec<WorkspaceInfo>,
    pub windows: Vec<WindowInfo>,
}

/// A best-effort placement command; its outcome is never awaited.
#[derive(Debug, PartialEq, Eq)]
pub enum Command {
    MoveToWorkspace { window_id: u64, workspace_id: u64, focus: bool },
    MoveToMonitor { window_id: u64, output: String },
    FocusWindow { window_id: u64 },
    SetFloating { window_id: u64 },
    SetTiling { window_id: u64 },
}

/// The name of the workspace where stashed windows are parked.
pub const STASH_WORKSPACE: &'static str = "stash";

/// The first window of `ws` with id `id`.
pub open spec fn find_window(ws: Seq<WindowInfo>, id: u64) -> Option<WindowInfo>
    decreases ws.len(),
{
    if ws.len() == 0 {
        None
    } else if ws.first().id == id {
        Some(ws.first())
    } else {
        find_window(ws.drop_first(), id)
    }
}

/// Some window of `ws` has id `id`.
pub open spec fn is_live(ws: Seq<WindowInfo>, id: u64) -> bool {
    exists|i: int| 0 <= i < ws.len() && ws[i].id == id
}

/// `find_window` finds a window exactly when one with that id is live, and
/// what it finds has that id.
pub proof fn lemma_find_window(ws: Seq<WindowInfo>, id: u64)
    ensures
        find_window(ws, id) is Some <==> is_live(ws, id),
        find_window(ws, id) matches Some(w) ==> w.id == id,
    decreases ws.len(),
{
    if ws.len() > 0 {
        lemma_find_window(ws.drop_first(), id);
        if is_live(ws, id) && ws.first().id != id {
            let i = choose|i: int| 0 <= i < ws.len() && ws[i].id == id;
            assert(ws.drop_first()[i - 1].id == id);
        }
        if is_live(ws.drop_first(), id) {
            let i = choose|i: int| 0 <= i < ws.len() - 1 && ws.drop_first()[i].id == id;
            assert(ws[i + 1].id == id);
        }
    }
}

/// The first workspace of `ws` that satisfies `p`.
pub open spec fn find_workspace(ws: Seq<WorkspaceInfo>, p: spec_fn(WorkspaceInfo) -> bool) -> Option<
    WorkspaceInfo,
>
    decreases ws.len(),
{
    if ws.len() == 0 {
        None
    } else if p(ws.first()) {
        Some(ws.first())
    } else {
        find_workspace(ws.drop_first(), p)
    }
}

pub open spec fn is_focused_workspace(w: WorkspaceInfo) -> bool {
    w.is_focused
}

pub open spec fn is_stash_workspace(w: WorkspaceInfo) -> bool {
    w.name matches Some(n) && n@ == STASH_WORKSPACE@
}

/// The focused workspace.
pub open spec fn focused_workspace(ws: Seq<WorkspaceInfo>) -> Option<WorkspaceInfo> {
    find_workspace(ws, |w: WorkspaceInfo| is_focused_workspace(w))
}

/// The workspace where stashed windows are parked.
pub open spec fn stash_workspace(ws: Seq<WorkspaceInfo>) -> Option<WorkspaceInfo> {
    find_workspace(ws, |w: WorkspaceInfo| is_stash_workspace(w))
}

/// The first window of `windows` with id `id`.
pub fn window_by_id(windows: &Vec<WindowInfo>, id: u64) -> (r: Option<&WindowInfo>)
    ensures
        match r {
            Some(w) => find_window(windows@, id) == Some(*w),
            None => find_window(windows@, id) is None,
        },
{
    let mut i: usize = 0;
    assert(windows@.subrange(0, windows@.len() as int) == windows@);
    while i < windows.len()
        invariant
            i <= windows@.len(),
            find_window(windows@, id) == find_window(windows@.subrange(i as int, windows@.len() as int), id),
        decreases windows@.len() - i,
    {
        let ghost rest = windows@.subrange(i as int, windows@.len() as int);
        assert(rest.drop_first() == windows@.subrange(i + 1, windows@.len() as int));
        if windows[i].id == id {
            return Some(&windows[i]);
        }
        i = i + 1;
    }
    None
}

/// The focused workspace, if the compositor reports one.
pub fn focused_workspace_of(workspaces: &Vec<WorkspaceInfo>) -> (r: Option<&WorkspaceInfo>)
    ensures
        match r {
            Some(w) => focused_workspace(workspaces@) == Some(*w),
            None => focused_workspace(workspaces@) is None,
        },
{
    let ghost p = |w: WorkspaceInfo| is_focused_workspace(w);
    let mut i: usize = 0;
    assert(workspaces@.subrange(0, workspaces@.len() as int) == workspaces@);
    while i < workspaces.len()
        invariant
            i <= workspaces@.len(),
            p == (|w: WorkspaceInfo| is_focused_workspace(w)),
            find_workspace(workspaces@, p) == find_workspace(
                workspaces@.subrange(i as int, workspaces@.len() as int),
                p,
            ),
        decreases workspaces@.len() - i,
    {
        let ghost rest = workspaces@.subrange(i as int, workspaces@.len() as int);
        assert(rest.drop_first() == workspaces@.subrange(i + 1, workspaces@.len() as int));
        if workspaces[i].is_focused {
            return Some(&workspaces[i]);
        }
        i = i + 1;
    }
    None
}

/// The workspace where stashed windows are parked, if there is one.
pub fn stash_workspace_of(workspaces: &Vec<WorkspaceInfo>) -> (r: Option<&WorkspaceInfo>)
    ensures
        match r {
            Some(w) => stash_workspace(workspaces@) == Some(*w),
            None => stash_workspace(workspaces@) is None,
        },
{
    let ghost p = |w: WorkspaceInfo| is_stash_workspace(w);
    let stash_name = String::from_str(STASH_WORKSPACE);
    let mut i: usize = 0;
    assert(workspaces@.subrange(0, workspaces@.len() as int) == workspaces@);
    while i < workspaces.len()
        invariant
            i <= workspaces@.len(),
            stash_name@ == STASH_WORKSPACE@,
            p == (|w: WorkspaceInfo| is_stash_workspace(w)),
            find_workspace(workspaces@, p) == find_workspace(
                workspaces@.subrange(i as int, workspaces@.len() as int),
                p,
            ),
        decreases workspaces@.len() - i,
    {
        let ghost rest = workspaces@.subrange(i as int, workspaces@.len() as int);
        assert(rest.drop_first() == workspaces@.subrange(i + 1, workspaces@.len() as int));
        let is_stash = match &workspaces[i].name {
            Some(name) => *name == stash_name,
            None => false,
        };
        if is_stash {
            return Some(&workspaces[i]);
        }
        i = i + 1;
    }
    None
}

} // verus!
