//! The request dispatcher: from one request and a fresh snapshot of the
//! compositor to the store's next state, the placement commands to issue, and
//! the one-line response.

use vstd::prelude::*;
use crate::args::{Action, Output};
use crate::compositor::{
    find_window, focused_workspace, focused_workspace_of, is_live, lemma_find_window,
    stash_workspace, window_by_id, Command, Snapshot, WindowInfo,
};
use crate::scratchpad_action::{
    check_status, lemma_stash_moves_window, refreshed, stash, stash_commands, status_of, summon,
    summon_commands, summon_window, sync_state, synced, ScratchpadInformation, ScratchpadStatus,
};
use crate::state::{lookup, Scratchpad, State};
use crate::utils::{set_floating, set_tiling};

verus! {

/// What handling one request produces besides the new store.
pub struct Outcome {
    /// Placement commands, to be issued in order, each best-effort.
    pub commands: Vec<Command>,
    /// The line sent back to the client.
    pub response: String,
}

/// A register together with its liveness.
pub struct ScratchpadWithStatus {
    pub status: ScratchpadStatus,
    pub scratchpad: Scratchpad,
}

/// The effect of one request on the model: the store after it, the commands,
/// the response.
pub struct Step {
    pub store: Map<i32, Scratchpad>,
    pub commands: Seq<Command>,
    pub response: Seq<char>,
}

/// The text of an optional field; empty where it is unset.
pub open spec fn text_of(v: Option<String>) -> Seq<char> {
    match v {
        Some(s) => s@,
        None => Seq::empty(),
    }
}

/// The field `output` asks for.
pub open spec fn field_of(output: Output, title: Option<String>, app_id: Option<String>) -> Seq<char> {
    match output {
        Output::Title => text_of(title),
        Output::AppId => text_of(app_id),
    }
}

/// The field `output` asks for, or nothing where none is asked for.
pub open spec fn requested(output: Option<Output>, title: Option<String>, app_id: Option<String>) -> Seq<
    char,
> {
    match output {
        Some(o) => field_of(o, title, app_id),
        None => Seq::empty(),
    }
}

/// Register `n` bound to window `w`.
pub open spec fn bound(n: i32, w: WindowInfo) -> Scratchpad {
    Scratchpad { title: w.title, app_id: w.app_id, id: w.id, scratchpad_number: n }
}

/// The one-shot float of a window at a transition.
pub open spec fn float_commands(float: bool, id: u64) -> Seq<Command> {
    if float {
        seq![Command::SetFloating { window_id: id }]
    } else {
        seq![]
    }
}

/// The untiling that precedes a stash when layout changes are enabled.
pub open spec fn untile_commands(animations: bool, w: WindowInfo) -> Seq<Command> {
    if animations && w.is_floating {
        seq![Command::SetTiling { window_id: w.id }]
    } else {
        seq![]
    }
}

/// The step that leaves everything as it is and answers with nothing.
pub open spec fn idle(m: Map<i32, Scratchpad>) -> Step {
    Step { store: m, commands: seq![], response: seq![] }
}

/// Create with a focused window `f` on workspace `current`.
pub open spec fn create_focused_step(
    m: Map<i32, Scratchpad>,
    n: i32,
    output: Option<Output>,
    as_float: bool,
    animations: bool,
    f: WindowInfo,
    current: u64,
    snap: Snapshot,
) -> Step {
    if !m.contains_key(n) {
        Step { store: m.insert(n, bound(n, f)), commands: float_commands(as_float, f.id), response: seq![] }
    } else {
        match find_window(snap.windows@, m[n].id) {
            None => Step {
                store: m.insert(n, bound(n, f)),
                commands: float_commands(as_float, f.id),
                response: requested(output, m[n].title, m[n].app_id),
            },
            Some(w) => {
                let store = m.insert(n, refreshed(m[n], w));
                let commands = if w.workspace_id == Some(current) {
                    untile_commands(animations, w) + stash_commands(store, snap, Some(n))
                } else {
                    summon_commands(w.id, snap) + float_commands(as_float && animations, w.id)
                };
                Step { store, commands, response: requested(output, w.title, w.app_id) }
            },
        }
    }
}

/// Create: bind, toggle or rebind register `n`.
pub open spec fn create_step(
    m: Map<i32, Scratchpad>,
    n: i32,
    output: Option<Output>,
    as_float: bool,
    animations: bool,
    snap: Snapshot,
) -> Step {
    match focused_workspace(snap.workspaces@) {
        None => idle(m),
        Some(current) => match snap.focused_window {
            None => Step {
                store: m,
                commands: if m.contains_key(n) {
                    summon_commands(m[n].id, snap)
                } else {
                    seq![]
                },
                response: seq![],
            },
            Some(f) => create_focused_step(m, n, output, as_float, animations, f, current.id, snap),
        },
    }
}

/// Delete: with no output asked for, summon register `n`'s window and forget
/// the register.
pub open spec fn delete_step(m: Map<i32, Scratchpad>, n: i32, output: Option<Output>, snap: Snapshot) -> Step {
    if output is None && m.contains_key(n) {
        Step { store: m.remove(n), commands: summon_commands(m[n].id, snap), response: seq![] }
    } else {
        idle(m)
    }
}

/// Get: a full sync, then the requested field of register `n`.
pub open spec fn get_step(m: Map<i32, Scratchpad>, n: i32, output: Output, snap: Snapshot) -> Step {
    let s = synced(m, snap.windows@);
    Step {
        store: s,
        commands: seq![],
        response: if s.contains_key(n) {
            field_of(output, s[n].title, s[n].app_id)
        } else {
            seq![]
        },
    }
}

/// Sync: a full sync.
pub open spec fn sync_step(m: Map<i32, Scratchpad>, snap: Snapshot) -> Step {
    idle(synced(m, snap.windows@))
}

/// Window `id` is live and sits on the focused workspace.
pub open spec fn on_focused_workspace(snap: Snapshot, id: u64) -> bool {
    &&& focused_workspace(snap.workspaces@) matches Some(current)
    &&& find_window(snap.windows@, id) matches Some(w)
    &&& w.workspace_id == Some(current.id)
}

/// `commands` park window `id` on the stash workspace of `snap`.
pub open spec fn stashes(commands: Seq<Command>, id: u64, snap: Snapshot) -> bool {
    stash_workspace(snap.workspaces@) matches Some(ws) && commands.contains(
        Command::MoveToWorkspace { window_id: id, workspace_id: ws.id, focus: false },
    )
}

/// `commands` bring window `id` to the focused workspace of `snap` and focus it.
pub open spec fn summons(commands: Seq<Command>, id: u64, snap: Snapshot) -> bool {
    &&& focused_workspace(snap.workspaces@) matches Some(ws)
    &&& commands.contains(Command::MoveToWorkspace { window_id: id, workspace_id: ws.id, focus: true })
    &&& commands.contains(Command::FocusWindow { window_id: id })
}

/// Create changes register `n` alone: every other register, and whether it
/// exists, stays as it was, and no number is ever held twice.
pub proof fn lemma_create_replaces_in_place(
    m: Map<i32, Scratchpad>,
    n: i32,
    output: Option<Output>,
    as_float: bool,
    animations: bool,
    snap: Snapshot,
)
    ensures
        forall|k: i32|
            k != n ==> (#[trigger] create_step(m, n, output, as_float, animations, snap).store.contains_key(k)
                == m.contains_key(k)),
        forall|k: i32|
            k != n && #[trigger] m.contains_key(k) ==> create_step(
                m,
                n,
                output,
                as_float,
                animations,
                snap,
            ).store[k] == m[k],
        m.contains_key(n) ==> create_step(m, n, output, as_float, animations, snap).store.contains_key(n),
{
}

/// Create on a register whose window is live: the register keeps its window,
/// and it is stashed where it sits on the focused workspace, else summoned.
proof fn lemma_create_live(
    m: Map<i32, Scratchpad>,
    n: i32,
    output: Option<Output>,
    as_float: bool,
    animations: bool,
    snap: Snapshot,
)
    requires
        m.contains_key(n),
        is_live(snap.windows@, m[n].id),
        snap.focused_window is Some,
        snap.focused_output is Some,
        focused_workspace(snap.workspaces@) is Some,
        stash_workspace(snap.workspaces@) is Some,
        !on_focused_workspace(snap, m[n].id) ==> snap.focused_window.unwrap().id != m[n].id,
    ensures
        create_step(m, n, output, as_float, animations, snap).store.contains_key(n),
        create_step(m, n, output, as_float, animations, snap).store[n].id == m[n].id,
        on_focused_workspace(snap, m[n].id) ==> stashes(
            create_step(m, n, output, as_float, animations, snap).commands,
            m[n].id,
            snap,
        ),
        !on_focused_workspace(snap, m[n].id) ==> summons(
            create_step(m, n, output, as_float, animations, snap).commands,
            m[n].id,
            snap,
        ),
{
    let id = m[n].id;
    lemma_find_window(snap.windows@, id);
    let w = find_window(snap.windows@, id).unwrap();
    let current = focused_workspace(snap.workspaces@).unwrap();
    let store = m.insert(n, refreshed(m[n], w));
    let commands = create_step(m, n, output, as_float, animations, snap).commands;
    if on_focused_workspace(snap, id) {
        let ws = stash_workspace(snap.workspaces@).unwrap();
        let i = choose|i: int| 0 <= i < snap.windows@.len() && snap.windows@[i].id == id;
        lemma_stash_moves_window(store, snap.windows@, n, ws.id, i);
        let moves = stash_commands(store, snap, Some(n));
        let pre = untile_commands(animations, w);
        let target = Command::MoveToWorkspace { window_id: id, workspace_id: ws.id, focus: false };
        let j = choose|j: int| 0 <= j < moves.len() && moves[j] == target;
        assert(commands == pre + moves);
        assert(commands[pre.len() + j] == target);
    } else {
        let summoned = summon_commands(id, snap);
        assert(commands == summoned + float_commands(as_float && animations, id));
        assert(commands[1] == Command::MoveToWorkspace { window_id: id, workspace_id: current.id, focus: true });
        assert(commands[2] == Command::FocusWindow { window_id: id });
    }
}

/// Toggle: two Creates in a row on a register whose window stays live, where
/// the compositor carried out the first (the window's visibility differs
/// between the two snapshots), stash the window and then summon it back, or
/// the other way round where it started hidden; the register keeps its
/// window throughout.
pub proof fn lemma_toggle(
    m: Map<i32, Scratchpad>,
    n: i32,
    output: Option<Output>,
    as_float: bool,
    animations: bool,
    first: Snapshot,
    second: Snapshot,
)
    requires
        m.contains_key(n),
        is_live(first.windows@, m[n].id),
        is_live(second.windows@, m[n].id),
        first.focused_window is Some,
        second.focused_window is Some,
        first.focused_output is Some,
        second.focused_output is Some,
        focused_workspace(first.workspaces@) is Some,
        focused_workspace(second.workspaces@) is Some,
        stash_workspace(first.workspaces@) is Some,
        stash_workspace(second.workspaces@) is Some,
        on_focused_workspace(first, m[n].id) != on_focused_workspace(second, m[n].id),
        !on_focused_workspace(first, m[n].id) ==> first.focused_window.unwrap().id != m[n].id,
        !on_focused_workspace(second, m[n].id) ==> second.focused_window.unwrap().id != m[n].id,
    ensures
        ({
            let one = create_step(m, n, output, as_float, animations, first);
            let two = create_step(one.store, n, output, as_float, animations, second);
            &&& one.store.contains_key(n) && one.store[n].id == m[n].id
            &&& two.store.contains_key(n) && two.store[n].id == m[n].id
            &&& on_focused_workspace(first, m[n].id) ==> stashes(one.commands, m[n].id, first)
                && summons(two.commands, m[n].id, second)
            &&& !on_focused_workspace(first, m[n].id) ==> summons(one.commands, m[n].id, first)
                && stashes(two.commands, m[n].id, second)
        }),
{
    lemma_create_live(m, n, output, as_float, animations, first);
    let one = create_step(m, n, output, as_float, animations, first);
    lemma_create_live(one.store, n, output, as_float, animations, second);
}

/// Drop and rebind: where a register's window has closed, Create reports the
/// closed window's cached field and binds the register to the focused window
/// in place of the stale entry; Get drops the register and reports nothing.
pub proof fn lemma_drop_and_rebind(
    m: Map<i32, Scratchpad>,
    n: i32,
    output: Option<Output>,
    as_float: bool,
    animations: bool,
    field: Output,
    snap: Snapshot,
)
    requires
        m.contains_key(n),
        !is_live(snap.windows@, m[n].id),
    ensures
        snap.focused_window is Some && focused_workspace(snap.workspaces@) is Some ==> {
            let f = snap.focused_window.unwrap();
            let c = create_step(m, n, output, as_float, animations, snap);
            &&& c.store == m.insert(n, bound(n, f))
            &&& c.response == requested(output, m[n].title, m[n].app_id)
            &&& c.commands == float_commands(as_float, f.id)
        },
        !get_step(m, n, field, snap).store.contains_key(n),
        get_step(m, n, field, snap).response == Seq::<char>::empty(),
{
    lemma_find_window(snap.windows@, m[n].id);
}

/// Delete summons before forgetting: deleting a register whose window is not
/// the focused one moves that window to the focused output and workspace and
/// focuses it, and the register is gone: a later Get on it reports nothing.
pub proof fn lemma_delete_summons(m: Map<i32, Scratchpad>, n: i32, snap: Snapshot, later: Snapshot, field: Output)
    requires
        m.contains_key(n),
        snap.focused_output is Some,
        focused_workspace(snap.workspaces@) is Some,
        snap.focused_window matches Some(f) ==> f.id != m[n].id,
    ensures
        ({
            let d = delete_step(m, n, None, snap);
            let id = m[n].id;
            &&& d.commands == seq![
                Command::MoveToMonitor { window_id: id, output: snap.focused_output.unwrap() },
                Command::MoveToWorkspace {
                    window_id: id,
                    workspace_id: focused_workspace(snap.workspaces@).unwrap().id,
                    focus: true,
                },
                Command::FocusWindow { window_id: id },
            ]
            &&& !d.store.contains_key(n)
            &&& get_step(d.store, n, field, later).response == Seq::<char>::empty()
        }),
{
}

/// The store `after` and the outcome `o` are those of `step`.
pub open spec fn realizes(after: Map<i32, Scratchpad>, o: Outcome, step: Step) -> bool {
    &&& after == step.store
    &&& o.commands@ == step.commands
    &&& o.response@ == step.response
}

/// The text of an optional field; empty where it is unset.
fn text_or_empty(v: Option<String>) -> (r: String)
    ensures
        r@ == text_of(v),
{
    match v {
        Some(s) => s,
        None => String::new(),
    }
}

/// The field `output` asks for, copied from `title` and `app_id`.
fn requested_field(output: Option<Output>, title: &Option<String>, app_id: &Option<String>) -> (r: String)
    ensures
        r@ == requested(output, *title, *app_id),
{
    match output {
        Some(Output::Title) => text_or_empty(title.clone()),
        Some(Output::AppId) => text_or_empty(app_id.clone()),
        None => String::new(),
    }
}

/// Register `scratchpad_number` with its liveness, if the store holds it.
pub fn scratchpad_check(state: &State, scratchpad_number: i32, windows: &Vec<WindowInfo>) -> (r: Option<
    ScratchpadWithStatus,
>)
    requires
        state.wf(),
    ensures
        match r {
            Some(s) => lookup(state@, scratchpad_number) == Some(s.scratchpad) && s.status == status_of(
                s.scratchpad,
                windows@,
            ) && s.scratchpad.scratchpad_number == scratchpad_number,
            None => lookup(state@, scratchpad_number) is None,
        },
{
    let scratchpad = match state.get_scratchpad_by_number(scratchpad_number) {
        Some(sp) => sp,
        None => {
            return None;
        },
    };
    let status = check_status(&scratchpad, windows);
    Some(ScratchpadWithStatus { status, scratchpad })
}

/// Binds register `scratchpad_number` to the focused window `focused`, with
/// the one-shot float.
fn bind_focused(state: &mut State, scratchpad_number: i32, focused: &WindowInfo, as_float: bool) -> (r:
    Vec<Command>)
    requires
        old(state).wf(),
    ensures
        final(state).wf(),
        final(state)@ == old(state)@.insert(scratchpad_number, bound(scratchpad_number, *focused)),
        r@ == float_commands(as_float, focused.id),
{
    state.add_scratchpad(scratchpad_number, focused.id, focused.title.clone(), focused.app_id.clone());
    let mut r: Vec<Command> = Vec::new();
    if as_float {
        r.push(set_floating(focused.id));
    }
    assert(r@ =~= float_commands(as_float, focused.id));
    r
}

/// Create, with a focused window on workspace `current_workspace_id`.
pub fn handle_focused_window(
    state: &mut State,
    scratchpad_number: i32,
    focused: &WindowInfo,
    current_workspace_id: u64,
    output: Option<Output>,
    as_float: bool,
    animations: bool,
    snapshot: &Snapshot,
) -> (r: Outcome)
    requires
        old(state).wf(),
    ensures
        final(state).wf(),
        realizes(
            final(state)@,
            r,
            create_focused_step(
                old(state)@,
                scratchpad_number,
                output,
                as_float,
                animations,
                *focused,
                current_workspace_id,
                *snapshot,
            ),
        ),
{
    let checked = match scratchpad_check(state, scratchpad_number, &snapshot.windows) {
        Some(c) => c,
        None => {
            let commands = bind_focused(state, scratchpad_number, focused, as_float);
            return Outcome { commands, response: String::new() };
        },
    };
    let stale = checked.scratchpad;
    proof {
        lemma_find_window(snapshot.windows@, stale.id);
    }
    match window_by_id(&snapshot.windows, stale.id) {
        None => {
            let response = requested_field(output, &stale.title, &stale.app_id);
            state.delete_scratchpad(scratchpad_number);
            let commands = bind_focused(state, scratchpad_number, focused, as_float);
            proof {
                assert(final(state)@ =~= old(state)@.insert(scratchpad_number, bound(scratchpad_number, *focused)));
            }
            Outcome { commands, response }
        },
        Some(w) => {
            let response = requested_field(output, &w.title, &w.app_id);
            state.update_scratchpad(
                Scratchpad {
                    title: w.title.clone(),
                    app_id: w.app_id.clone(),
                    id: stale.id,
                    scratchpad_number,
                },
            );
            let mut commands: Vec<Command> = Vec::new();
            if w.workspace_id == Some(current_workspace_id) {
                if animations && w.is_floating {
                    commands.push(set_tiling(w.id));
                }
                let mut moves = stash(state, snapshot, Some(scratchpad_number));
                commands.append(&mut moves);
            } else {
                let mut moves = summon_window(w.id, snapshot);
                commands.append(&mut moves);
                if as_float && animations {
                    commands.push(set_floating(w.id));
                }
            }
            assert(commands@ =~= create_focused_step(
                old(state)@,
                scratchpad_number,
                output,
                as_float,
                animations,
                *focused,
                current_workspace_id,
                *snapshot,
            ).commands);
            Outcome { commands, response }
        },
    }
}

/// Create, with no focused window: bring the register's window into view.
pub fn handle_no_focused_window(state: &State, scratchpad_number: i32, snapshot: &Snapshot) -> (r: Vec<
    Command,
>)
    requires
        state.wf(),
    ensures
        r@ == (if state@.contains_key(scratchpad_number) {
            summon_commands(state@[scratchpad_number].id, *snapshot)
        } else {
            seq![]
        }),
{
    summon(state, snapshot, ScratchpadInformation::Id(scratchpad_number))
}

/// Handles one request against a fresh snapshot of the compositor. `None`
/// means that no response is sent.
pub fn handle_action(state: &mut State, action: Action, snapshot: &Snapshot) -> (r: Option<Outcome>)
    requires
        old(state).wf(),
    ensures
        final(state).wf(),
        match action {
            Action::Create { scratchpad_number, output, as_float, animations } => r matches Some(o)
                && realizes(
                final(state)@,
                o,
                create_step(old(state)@, scratchpad_number, output, as_float, animations, *snapshot),
            ),
            Action::Delete { scratchpad_number, output } => r matches Some(o) && realizes(
                final(state)@,
                o,
                delete_step(old(state)@, scratchpad_number, output, *snapshot),
            ),
            Action::Get { scratchpad_number, output } => r matches Some(o) && realizes(
                final(state)@,
                o,
                get_step(old(state)@, scratchpad_number, output, *snapshot),
            ),
            Action::Sync => r matches Some(o) && realizes(
                final(state)@,
                o,
                sync_step(old(state)@, *snapshot),
            ),
            Action::Daemon => r is None && final(state)@ == old(state)@,
        },
{
    match action {
        Action::Create { scratchpad_number, output, as_float, animations } => {
            let current = match focused_workspace_of(&snapshot.workspaces) {
                Some(ws) => ws.id,
                None => {
                    return Some(Outcome { commands: Vec::new(), response: String::new() });
                },
            };
            match &snapshot.focused_window {
                Some(focused) => Some(
                    handle_focused_window(
                        state,
                        scratchpad_number,
                        focused,
                        current,
                        output,
                        as_float,
                        animations,
                        snapshot,
                    ),
                ),
                None => {
                    let commands = handle_no_focused_window(state, scratchpad_number, snapshot);
                    Some(Outcome { commands, response: String::new() })
                },
            }
        },
        Action::Delete { scratchpad_number, output } => {
            if output.is_some() {
                return Some(Outcome { commands: Vec::new(), response: String::new() });
            }
            let commands = summon(state, snapshot, ScratchpadInformation::Id(scratchpad_number));
            proof {
                if !state@.contains_key(scratchpad_number) {
                    assert(state@.remove(scratchpad_number) =~= state@);
                }
            }
            state.delete_scratchpad(scratchpad_number);
            Some(Outcome { commands, response: String::new() })
        },
        Action::Get { scratchpad_number, output } => {
            sync_state(state, &snapshot.windows);
            let response = match state.get_scratchpad_by_number(scratchpad_number) {
                Some(sp) => match output {
                    Output::Title => text_or_empty(sp.title),
                    Output::AppId => text_or_empty(sp.app_id),
                },
                None => String::new(),
            };
            Some(Outcome { commands: Vec::new(), response })
        },
        Action::Sync => {
            sync_state(state, &snapshot.windows);
            Some(Outcome { commands: Vec::new(), response: String::new() })
        },
        Action::Daemon => None,
    }
}

} // verus!
