//! The window orchestrator: liveness of a register, the stash and summon
//! command sequences, and the reconciliation batch of a full sync.

use vstd::prelude::*;
use crate::compositor::{
    find_window, focused_workspace, focused_workspace_of, is_live, lemma_find_window,
    stash_workspace, stash_workspace_of, window_by_id, Command, Snapshot, WindowInfo,
};
use crate::state::{
    apply_update, apply_updates, has_number, lemma_to_map_dom, lemma_to_map_value, to_map,
    unique_numbers, Scratchpad, ScratchpadUpdate, State,
};

verus! {

/// Whether a register's window is still open.
#[derive(Debug, Clone, Copy, PartialEq, Eq)]
pub enum ScratchpadStatus {
    WindowMapped,
    WindowDropped,
}

/// The register to summon: by number, or given directly.
pub enum ScratchpadInformation<'a> {
    Id(i32),
    Scratchpad(&'a Scratchpad),
}

/// `Mapped` exactly when some live window has the register's window id.
pub open spec fn status_of(sp: Scratchpad, windows: Seq<WindowInfo>) -> ScratchpadStatus {
    if is_live(windows, sp.id) {
        ScratchpadStatus::WindowMapped
    } else {
        ScratchpadStatus::WindowDropped
    }
}

/// The register with the cached title and app id of window `w`.
pub open spec fn refreshed(sp: Scratchpad, w: WindowInfo) -> Scratchpad {
    Scratchpad {
        title: w.title,
        app_id: w.app_id,
        id: sp.id,
        scratchpad_number: sp.scratchpad_number,
    }
}

/// The update that a full sync makes for one register.
pub open spec fn sync_entry(sp: Scratchpad, windows: Seq<WindowInfo>) -> ScratchpadUpdate {
    match find_window(windows, sp.id) {
        Some(w) => ScratchpadUpdate::Update(refreshed(sp, w)),
        None => ScratchpadUpdate::Delete(sp.scratchpad_number),
    }
}

/// The batch of a full sync: one update per tracked register.
pub open spec fn sync_batch(regs: Seq<Scratchpad>, windows: Seq<WindowInfo>) -> Seq<
    ScratchpadUpdate,
> {
    regs.map_values(|sp: Scratchpad| sync_entry(sp, windows))
}

/// The store after a full sync: the registers whose window is live, each
/// with that window's current title and app id.
pub open spec fn synced(m: Map<i32, Scratchpad>, windows: Seq<WindowInfo>) -> Map<i32, Scratchpad> {
    Map::new(
        |n: i32| m.contains_key(n) && is_live(windows, m[n].id),
        |n: i32| refreshed(m[n], find_window(windows, m[n].id).unwrap()),
    )
}

/// Window `w` is one that `number` selects for stashing: the window of that
/// register, or, with `None`, of any register.
pub open spec fn is_stash_target(m: Map<i32, Scratchpad>, w: WindowInfo, number: Option<i32>) -> bool {
    match number {
        Some(n) => m.contains_key(n) && m[n].id == w.id,
        None => exists|n: i32| m.contains_key(n) && m[n].id == w.id,
    }
}

/// The unfocused moves to workspace `workspace_id` of the windows of
/// `windows` that `number` selects, in order.
pub open spec fn stash_moves(
    m: Map<i32, Scratchpad>,
    windows: Seq<WindowInfo>,
    number: Option<i32>,
    workspace_id: u64,
) -> Seq<Command>
    decreases windows.len(),
{
    if windows.len() == 0 {
        seq![]
    } else {
        let rest = stash_moves(m, windows.drop_last(), number, workspace_id);
        if is_stash_target(m, windows.last(), number) {
            rest.push(
                Command::MoveToWorkspace {
                    window_id: windows.last().id,
                    workspace_id,
                    focus: false,
                },
            )
        } else {
            rest
        }
    }
}

/// A stash of a number that no register holds moves nothing.
proof fn lemma_stash_moves_unbound(
    m: Map<i32, Scratchpad>,
    windows: Seq<WindowInfo>,
    n: i32,
    workspace_id: u64,
)
    requires
        !m.contains_key(n),
    ensures
        stash_moves(m, windows, Some(n), workspace_id) == Seq::<Command>::empty(),
    decreases windows.len(),
{
    if windows.len() > 0 {
        lemma_stash_moves_unbound(m, windows.drop_last(), n, workspace_id);
    }
}

/// A stash of register `n` moves its live window to the stash workspace.
pub proof fn lemma_stash_moves_window(
    m: Map<i32, Scratchpad>,
    windows: Seq<WindowInfo>,
    n: i32,
    workspace_id: u64,
    i: int,
)
    requires
        m.contains_key(n),
        0 <= i < windows.len(),
        windows[i].id == m[n].id,
    ensures
        stash_moves(m, windows, Some(n), workspace_id).contains(
            Command::MoveToWorkspace { window_id: m[n].id, workspace_id, focus: false },
        ),
    decreases windows.len(),
{
    let moves = stash_moves(m, windows, Some(n), workspace_id);
    if i == windows.len() - 1 {
        assert(moves.last() == Command::MoveToWorkspace { window_id: m[n].id, workspace_id, focus: false });
    } else {
        lemma_stash_moves_window(m, windows.drop_last(), n, workspace_id, i);
        let rest = stash_moves(m, windows.drop_last(), Some(n), workspace_id);
        let j = choose|j: int|
            0 <= j < rest.len() && rest[j] == Command::MoveToWorkspace {
                window_id: m[n].id,
                workspace_id,
                focus: false,
            };
        assert(moves[j] == rest[j]);
    }
}

/// What a stash asks for: each selected live window moved, unfocused, to the
/// stash workspace; nothing where there is no such workspace.
pub open spec fn stash_commands(m: Map<i32, Scratchpad>, snap: Snapshot, number: Option<i32>) -> Seq<
    Command,
> {
    match stash_workspace(snap.workspaces@) {
        Some(ws) => stash_moves(m, snap.windows@, number, ws.id),
        None => seq![],
    }
}

/// What a summon of window `id` asks for: nothing where there is no focused
/// output or the window has the focus already; else a move to the focused
/// output, then, where there is a focused workspace, a move there with focus
/// and an explicit focus.
pub open spec fn summon_commands(id: u64, snap: Snapshot) -> Seq<Command> {
    match snap.focused_output {
        None => seq![],
        Some(output) => if snap.focused_window matches Some(f) && f.id == id {
            seq![]
        } else {
            let to_output = Command::MoveToMonitor { window_id: id, output };
            match focused_workspace(snap.workspaces@) {
                None => seq![to_output],
                Some(ws) => seq![
                    to_output,
                    Command::MoveToWorkspace { window_id: id, workspace_id: ws.id, focus: true },
                    Command::FocusWindow { window_id: id },
                ],
            }
        },
    }
}

/// The liveness of `scratchpad` against the live windows.
pub fn check_status(scratchpad: &Scratchpad, windows: &Vec<WindowInfo>) -> (r: ScratchpadStatus)
    ensures
        r == status_of(*scratchpad, windows@),
{
    proof {
        lemma_find_window(windows@, scratchpad.id);
    }
    match window_by_id(windows, scratchpad.id) {
        Some(_) => ScratchpadStatus::WindowMapped,
        None => ScratchpadStatus::WindowDropped,
    }
}

impl State {
    /// Some register is bound to window `id`.
    pub fn tracks_window(&self, id: u64) -> (r: bool)
        requires
            self.wf(),
        ensures
            r == exists|n: i32| self@.contains_key(n) && self@[n].id == id,
    {
        let mut i: usize = 0;
        while i < self.scratchpads.len()
            invariant
                self.wf(),
                i <= self.scratchpads@.len(),
                forall|j: int| 0 <= j < i ==> self.scratchpads@[j].id != id,
            decreases self.scratchpads@.len() - i,
        {
            if self.scratchpads[i].id == id {
                proof {
                    lemma_to_map_value(self.scratchpads@, i as int);
                    let n = self.scratchpads@[i as int].scratchpad_number;
                    assert(self@.contains_key(n) && self@[n].id == id);
                }
                return true;
            }
            i = i + 1;
        }
        proof {
            assert forall|n: i32| !(self@.contains_key(n) && self@[n].id == id) by {
                lemma_to_map_dom(self.scratchpads@, n);
                if self@.contains_key(n) {
                    let j = choose|j: int|
                        0 <= j < self.scratchpads@.len() && self.scratchpads@[j].scratchpad_number == n;
                    lemma_to_map_value(self.scratchpads@, j);
                }
            }
        }
        false
    }
}

/// Parks the live windows that `scratchpad_number` selects (the window of
/// that register, or, with `None`, of every register) on the stash workspace.
pub fn stash(state: &State, snapshot: &Snapshot, scratchpad_number: Option<i32>) -> (r: Vec<
    Command,
>)
    requires
        state.wf(),
    ensures
        r@ == stash_commands(state@, *snapshot, scratchpad_number),
{
    let mut r: Vec<Command> = Vec::new();
    let target = match stash_workspace_of(&snapshot.workspaces) {
        Some(ws) => ws.id,
        None => {
            return r;
        },
    };
    let bound: Option<u64> = match scratchpad_number {
        Some(n) => match state.get_scratchpad_ref_by_number(n) {
            Some(sp) => Some(sp.id),
            None => {
                proof {
                    lemma_stash_moves_unbound(state@, snapshot.windows@, n, target);
                }
                return r;
            },
        },
        None => None,
    };
    let ghost windows = snapshot.windows@;
    let mut i: usize = 0;
    while i < snapshot.windows.len()
        invariant
            state.wf(),
            windows == snapshot.windows@,
            i <= windows.len(),
            stash_workspace(snapshot.workspaces@) matches Some(ws) && ws.id == target,
            match scratchpad_number {
                Some(n) => state@.contains_key(n) && bound == Some(state@[n].id),
                None => bound is None,
            },
            r@ == stash_moves(state@, windows.subrange(0, i as int), scratchpad_number, target),
        decreases windows.len() - i,
    {
        let w = &snapshot.windows[i];
        let selected = match bound {
            Some(id) => w.id == id,
            None => state.tracks_window(w.id),
        };
        assert(windows.subrange(0, i + 1).drop_last() == windows.subrange(0, i as int));
        if selected {
            r.push(Command::MoveToWorkspace { window_id: w.id, workspace_id: target, focus: false });
        }
        i = i + 1;
    }
    assert(windows.subrange(0, windows.len() as int) == windows);
    r
}

/// Brings a register's window to the focused output and workspace, and
/// focuses it.
pub fn summon(state: &State, snapshot: &Snapshot, scratchpad_info: ScratchpadInformation) -> (r: Vec<
    Command,
>)
    requires
        state.wf(),
    ensures
        r@ == match scratchpad_info {
            ScratchpadInformation::Id(n) => if state@.contains_key(n) {
                summon_commands(state@[n].id, *snapshot)
            } else {
                seq![]
            },
            ScratchpadInformation::Scratchpad(sp) => summon_commands(sp.id, *snapshot),
        },
{
    let id = match scratchpad_info {
        ScratchpadInformation::Id(n) => match state.get_scratchpad_ref_by_number(n) {
            Some(sp) => sp.id,
            None => {
                let r: Vec<Command> = Vec::new();
                assert(r@ == Seq::<Command>::empty());
                return r;
            },
        },
        ScratchpadInformation::Scratchpad(sp) => sp.id,
    };
    summon_window(id, snapshot)
}

/// The summon sequence for window `id`.
pub fn summon_window(id: u64, snapshot: &Snapshot) -> (r: Vec<Command>)
    ensures
        r@ == summon_commands(id, *snapshot),
{
    let mut r: Vec<Command> = Vec::new();
    let output = match &snapshot.focused_output {
        Some(output) => output,
        None => {
            return r;
        },
    };
    if let Some(f) = &snapshot.focused_window {
        if f.id == id {
            return r;
        }
    }
    r.push(Command::MoveToMonitor { window_id: id, output: output.clone() });
    match focused_workspace_of(&snapshot.workspaces) {
        Some(ws) => {
            r.push(Command::MoveToWorkspace { window_id: id, workspace_id: ws.id, focus: true });
            r.push(Command::FocusWindow { window_id: id });
        },
        None => {},
    }
    assert(r@ =~= summon_commands(id, *snapshot));
    r
}

/// The batch of a full sync: for each tracked register, an update that
/// refreshes its cached metadata from its live window, or a delete where its
/// window is gone.
pub fn get_all_scratchpad_status(scratchpads: Vec<&Scratchpad>, windows: &Vec<WindowInfo>) -> (r:
    Vec<ScratchpadUpdate>)
    ensures
        r@.len() == scratchpads@.len(),
        forall|i: int| 0 <= i < r@.len() ==> r@[i] == sync_entry(*scratchpads@[i], windows@),
{
    let mut r: Vec<ScratchpadUpdate> = Vec::new();
    let mut i: usize = 0;
    while i < scratchpads.len()
        invariant
            i <= scratchpads@.len(),
            r@.len() == i,
            forall|j: int| 0 <= j < i ==> r@[j] == sync_entry(*scratchpads@[j], windows@),
        decreases scratchpads@.len() - i,
    {
        let sp = scratchpads[i];
        match window_by_id(windows, sp.id) {
            Some(w) => {
                r.push(
                    ScratchpadUpdate::Update(
                        Scratchpad {
                            title: w.title.clone(),
                            app_id: w.app_id.clone(),
                            id: sp.id,
                            scratchpad_number: sp.scratchpad_number,
                        },
                    ),
                );
            },
            None => {
                r.push(ScratchpadUpdate::Delete(sp.scratchpad_number));
            },
        }
        i = i + 1;
    }
    r
}

/// Applying a full-sync batch to a store that holds every tracked register:
/// each tracked number stays exactly when its window is live, refreshed from
/// it; other numbers are untouched.
proof fn lemma_apply_sync_batch(m: Map<i32, Scratchpad>, regs: Seq<Scratchpad>, windows: Seq<WindowInfo>)
    requires
        unique_numbers(regs),
        forall|i: int| 0 <= i < regs.len() ==> m.contains_key(#[trigger] regs[i].scratchpad_number),
    ensures
        forall|i: int|
            0 <= i < regs.len() ==> (#[trigger] apply_updates(m, sync_batch(regs, windows)).contains_key(
                regs[i].scratchpad_number,
            ) == is_live(windows, regs[i].id)),
        forall|i: int|
            0 <= i < regs.len() && #[trigger] apply_updates(m, sync_batch(regs, windows)).contains_key(
                regs[i].scratchpad_number,
            ) ==> apply_updates(m, sync_batch(regs, windows))[regs[i].scratchpad_number] == refreshed(
                regs[i],
                find_window(windows, regs[i].id).unwrap(),
            ),
        forall|k: i32|
            !has_number(regs, k) ==> (#[trigger] apply_updates(m, sync_batch(regs, windows)).contains_key(k)
                == m.contains_key(k)),
        forall|k: i32|
            !has_number(regs, k) && #[trigger] m.contains_key(k) ==> apply_updates(
                m,
                sync_batch(regs, windows),
            )[k] == m[k],
    decreases regs.len(),
{
    if regs.len() > 0 {
        let front = regs.drop_last();
        let last = regs.last();
        assert(unique_numbers(front));
        assert forall|i: int| 0 <= i < front.len() implies m.contains_key(
            #[trigger] front[i].scratchpad_number,
        ) by {
            assert(front[i] == regs[i]);
        }
        lemma_apply_sync_batch(m, front, windows);
        assert(sync_batch(regs, windows).drop_last() == sync_batch(front, windows));
        let r0 = apply_updates(m, sync_batch(front, windows));
        let r = apply_updates(m, sync_batch(regs, windows));
        assert(r == apply_update(r0, sync_entry(last, windows)));
        lemma_find_window(windows, last.id);
        let kl = last.scratchpad_number;
        assert(!has_number(front, kl)) by {
            if has_number(front, kl) {
                let j = choose|j: int| 0 <= j < front.len() && front[j].scratchpad_number == kl;
                assert(regs[j].scratchpad_number == regs[regs.len() - 1].scratchpad_number);
            }
        }
        assert(m.contains_key(regs[regs.len() - 1].scratchpad_number));
        assert forall|i: int| 0 <= i < regs.len() implies {
            let k = #[trigger] regs[i].scratchpad_number;
            &&& r.contains_key(k) == is_live(windows, regs[i].id)
            &&& r.contains_key(k) ==> r[k] == refreshed(
                regs[i],
                find_window(windows, regs[i].id).unwrap(),
            )
        } by {
            if i < regs.len() - 1 {
                assert(front[i] == regs[i]);
                lemma_find_window(windows, regs[i].id);
            }
        }
        assert forall|k: i32| !has_number(regs, k) implies {
            &&& #[trigger] r.contains_key(k) == m.contains_key(k)
            &&& m.contains_key(k) ==> r[k] == m[k]
        } by {
            if has_number(front, k) {
                let j = choose|j: int| 0 <= j < front.len() && front[j].scratchpad_number == k;
                assert(regs[j].scratchpad_number == k);
            }
            assert(regs[regs.len() - 1].scratchpad_number != k);
        }
    }
}

/// Sync correctness: applying the batch of a full sync to the store that the
/// tracked registers form keeps a register exactly when its window id is
/// among the live windows, and then with that window's current title and app
/// id; number and window id stay as they were.
pub proof fn lemma_full_sync(regs: Seq<Scratchpad>, windows: Seq<WindowInfo>)
    requires
        unique_numbers(regs),
    ensures
        apply_updates(to_map(regs), sync_batch(regs, windows)) == synced(to_map(regs), windows),
        forall|n: i32|
            #[trigger] synced(to_map(regs), windows).contains_key(n) <==> (to_map(regs).contains_key(
                n,
            ) && is_live(windows, to_map(regs)[n].id)),
        forall|n: i32| #[trigger]
            synced(to_map(regs), windows).contains_key(n) ==> {
                let after = synced(to_map(regs), windows)[n];
                let before = to_map(regs)[n];
                let w = find_window(windows, before.id).unwrap();
                &&& w.id == before.id
                &&& after.title == w.title
                &&& after.app_id == w.app_id
                &&& after.id == before.id
                &&& after.scratchpad_number == before.scratchpad_number
            },
{
    let m = to_map(regs);
    assert forall|i: int| 0 <= i < regs.len() implies m.contains_key(
        #[trigger] regs[i].scratchpad_number,
    ) by {
        lemma_to_map_value(regs, i);
    }
    lemma_apply_sync_batch(m, regs, windows);
    let r = apply_updates(m, sync_batch(regs, windows));
    let target = synced(m, windows);
    assert forall|n: i32| r.contains_key(n) <==> target.contains_key(n) by {
        lemma_to_map_dom(regs, n);
        if has_number(regs, n) {
            let i = choose|i: int| 0 <= i < regs.len() && regs[i].scratchpad_number == n;
            lemma_to_map_value(regs, i);
        }
    }
    assert forall|n: i32| #[trigger] r.contains_key(n) implies r[n] == target[n] by {
        lemma_to_map_dom(regs, n);
        if has_number(regs, n) {
            let i = choose|i: int| 0 <= i < regs.len() && regs[i].scratchpad_number == n;
            lemma_to_map_value(regs, i);
        }
    }
    assert(r =~= target);
    assert forall|n: i32| #[trigger] target.contains_key(n) implies find_window(windows, m[n].id).unwrap().id
        == m[n].id by {
        lemma_find_window(windows, m[n].id);
    }
}

/// Runs a full sync on the store against the live windows.
pub fn sync_state(state: &mut State, windows: &Vec<WindowInfo>)
    requires
        old(state).wf(),
    ensures
        final(state).wf(),
        final(state)@ == synced(old(state)@, windows@),
{
    let tracked_scratchpads = state.get_tracked_scratchpads();
    let scratchpad_statuses = get_all_scratchpad_status(tracked_scratchpads, windows);
    proof {
        assert(scratchpad_statuses@ =~= sync_batch(state.scratchpads@, windows@));
        lemma_full_sync(state.scratchpads@, windows@);
    }
    state.syncronize_scratchpads(scratchpad_statuses);
}

} // verus!
