use niri_scratchpad::args::{Action, Output};
use niri_scratchpad::compositor::{Command, Snapshot, WindowInfo, WorkspaceInfo};
use niri_scratchpad::daemon::handle_action;
use niri_scratchpad::scratchpad_action::{stash, summon, summon_window, ScratchpadInformation};
use niri_scratchpad::state::State;
use niri_scratchpad::utils::{set_floating, set_tiling};

const MAIN: u64 = 1;
const STASH: u64 = 2;
const OTHER: u64 = 3;

fn window(id: u64, title: &str, app_id: &str, workspace: Option<u64>, floating: bool) -> WindowInfo {
    WindowInfo {
        id,
        title: Some(title.to_string()),
        app_id: Some(app_id.to_string()),
        workspace_id: workspace,
        is_floating: floating,
    }
}

fn workspaces(focused: u64) -> Vec<WorkspaceInfo> {
    vec![
        WorkspaceInfo { id: MAIN, name: None, is_focused: focused == MAIN },
        WorkspaceInfo { id: STASH, name: Some("stash".to_string()), is_focused: false },
        WorkspaceInfo { id: OTHER, name: Some("web".to_string()), is_focused: focused == OTHER },
    ]
}

fn snapshot(focused: Option<WindowInfo>, focused_ws: u64, windows: Vec<WindowInfo>) -> Snapshot {
    Snapshot {
        focused_window: focused,
        focused_output: Some("DP-1".to_string()),
        workspaces: workspaces(focused_ws),
        windows,
    }
}

fn create(n: i32) -> Action {
    Action::Create { scratchpad_number: n, output: None, as_float: false, animations: false }
}

fn summon_of(id: u64, ws: u64) -> Vec<Command> {
    vec![
        Command::MoveToMonitor { window_id: id, output: "DP-1".to_string() },
        Command::MoveToWorkspace { window_id: id, workspace_id: ws, focus: true },
        Command::FocusWindow { window_id: id },
    ]
}

fn stash_of(id: u64) -> Command {
    Command::MoveToWorkspace { window_id: id, workspace_id: STASH, focus: false }
}

fn get(state: &mut State, n: i32, output: Output, snap: &Snapshot) -> String {
    let o = handle_action(state, Action::Get { scratchpad_number: n, output }, snap).unwrap();
    assert!(o.commands.is_empty());
    o.response
}

#[test]
fn create_binds_absent_register() {
    let mut state = State::new();
    let w1 = window(10, "shell", "term", Some(MAIN), false);
    let snap = snapshot(Some(w1.clone()), MAIN, vec![w1]);
    let o = handle_action(&mut state, create(3), &snap).unwrap();
    assert_eq!(o.response, "");
    assert!(o.commands.is_empty());
    let reg = state.get_scratchpad_by_number(3).unwrap();
    assert_eq!(reg.id, 10);
    assert_eq!(reg.app_id.as_deref(), Some("term"));
}

#[test]
fn create_stashes_visible_then_summons_back() {
    let mut state = State::new();
    state.add_scratchpad(3, 10, Some("shell".to_string()), Some("term".to_string()));
    let w1 = window(10, "shell", "term", Some(MAIN), false);
    let snap = snapshot(Some(w1.clone()), MAIN, vec![w1]);
    let o = handle_action(&mut state, create(3), &snap).unwrap();
    assert_eq!(o.commands, vec![stash_of(10)]);
    assert_eq!(o.response, "");
    let reg = state.get_scratchpad_by_number(3).unwrap();
    assert_eq!(reg.id, 10);
    assert_eq!(reg.title.as_deref(), Some("shell"));

    // the window now sits on the stash workspace and focus moved elsewhere
    let w1 = window(10, "shell", "term", Some(STASH), false);
    let w2 = window(20, "browser", "web", Some(OTHER), false);
    let snap = snapshot(Some(w2.clone()), OTHER, vec![w1, w2]);
    let o = handle_action(&mut state, create(3), &snap).unwrap();
    assert_eq!(o.commands, summon_of(10, OTHER));
    assert_eq!(state.get_scratchpad_by_number(3).unwrap().id, 10);
}

#[test]
fn create_summons_window_without_workspace() {
    let mut state = State::new();
    state.add_scratchpad(3, 10, None, None);
    let w1 = window(10, "shell", "term", None, false);
    let w2 = window(20, "browser", "web", Some(MAIN), false);
    let snap = snapshot(Some(w2.clone()), MAIN, vec![w1, w2]);
    let o = handle_action(&mut state, create(3), &snap).unwrap();
    assert_eq!(o.commands, summon_of(10, MAIN));
}

#[test]
fn create_reports_live_field_and_refreshes_cache() {
    let mut state = State::new();
    state.add_scratchpad(3, 10, Some("old".to_string()), None);
    let w1 = window(10, "new title", "term", Some(STASH), false);
    let w2 = window(20, "browser", "web", Some(MAIN), false);
    let snap = snapshot(Some(w2.clone()), MAIN, vec![w1, w2]);
    let action = Action::Create {
        scratchpad_number: 3,
        output: Some(Output::Title),
        as_float: false,
        animations: false,
    };
    let o = handle_action(&mut state, action, &snap).unwrap();
    assert_eq!(o.response, "new title");
    let reg = state.get_scratchpad_by_number(3).unwrap();
    assert_eq!(reg.title.as_deref(), Some("new title"));
    assert_eq!(reg.app_id.as_deref(), Some("term"));
}

#[test]
fn create_floats_on_bind() {
    let mut state = State::new();
    let w1 = window(10, "shell", "term", Some(MAIN), false);
    let snap = snapshot(Some(w1.clone()), MAIN, vec![w1]);
    let action = Action::Create { scratchpad_number: 1, output: None, as_float: true, animations: false };
    let o = handle_action(&mut state, action, &snap).unwrap();
    assert_eq!(o.commands, vec![Command::SetFloating { window_id: 10 }]);
}

#[test]
fn create_untiles_floating_window_before_stash() {
    let mut state = State::new();
    state.add_scratchpad(1, 10, None, None);
    let w1 = window(10, "shell", "term", Some(MAIN), true);
    let snap = snapshot(Some(w1.clone()), MAIN, vec![w1]);
    let action = Action::Create { scratchpad_number: 1, output: None, as_float: false, animations: true };
    let o = handle_action(&mut state, action, &snap).unwrap();
    assert_eq!(o.commands, vec![Command::SetTiling { window_id: 10 }, stash_of(10)]);
}

#[test]
fn create_floats_after_summon_with_animations() {
    let mut state = State::new();
    state.add_scratchpad(1, 10, None, None);
    let w1 = window(10, "shell", "term", Some(STASH), false);
    let w2 = window(20, "browser", "web", Some(MAIN), false);
    let snap = snapshot(Some(w2.clone()), MAIN, vec![w1, w2]);
    let action = Action::Create { scratchpad_number: 1, output: None, as_float: true, animations: true };
    let o = handle_action(&mut state, action, &snap).unwrap();
    let mut expected = summon_of(10, MAIN);
    expected.push(Command::SetFloating { window_id: 10 });
    assert_eq!(o.commands, expected);

    let mut state = State::new();
    state.add_scratchpad(1, 10, None, None);
    let w1 = window(10, "shell", "term", Some(STASH), false);
    let w2 = window(20, "browser", "web", Some(MAIN), false);
    let snap = snapshot(Some(w2.clone()), MAIN, vec![w1, w2]);
    let action = Action::Create { scratchpad_number: 1, output: None, as_float: true, animations: false };
    let o = handle_action(&mut state, action, &snap).unwrap();
    assert_eq!(o.commands, summon_of(10, MAIN));
}

#[test]
fn create_rebinds_dropped_register_and_reports_stale_field() {
    let mut state = State::new();
    state.add_scratchpad(3, 10, Some("closed one".to_string()), Some("term".to_string()));
    let w2 = window(20, "browser", "web", Some(MAIN), false);
    let snap = snapshot(Some(w2.clone()), MAIN, vec![w2]);
    let action = Action::Create {
        scratchpad_number: 3,
        output: Some(Output::AppId),
        as_float: true,
        animations: false,
    };
    let o = handle_action(&mut state, action, &snap).unwrap();
    assert_eq!(o.response, "term");
    assert_eq!(o.commands, vec![Command::SetFloating { window_id: 20 }]);
    let reg = state.get_scratchpad_by_number(3).unwrap();
    assert_eq!(reg.id, 20);
    assert_eq!(reg.title.as_deref(), Some("browser"));
    assert_eq!(state.scratchpads.len(), 1);
}

#[test]
fn create_without_focused_window_summons_register() {
    let mut state = State::new();
    state.add_scratchpad(3, 10, None, None);
    let w1 = window(10, "shell", "term", Some(STASH), false);
    let snap = snapshot(None, MAIN, vec![w1]);
    let o = handle_action(&mut state, create(3), &snap).unwrap();
    assert_eq!(o.commands, summon_of(10, MAIN));
    assert_eq!(o.response, "");
    let o = handle_action(&mut state, create(4), &snap).unwrap();
    assert!(o.commands.is_empty());
    assert_eq!(state.get_scratchpad_by_number(4), None);
}

#[test]
fn create_without_focused_workspace_does_nothing() {
    let mut state = State::new();
    let w1 = window(10, "shell", "term", Some(MAIN), false);
    let mut snap = snapshot(Some(w1.clone()), MAIN, vec![w1]);
    snap.workspaces = vec![WorkspaceInfo { id: MAIN, name: None, is_focused: false }];
    let o = handle_action(&mut state, create(3), &snap).unwrap();
    assert!(o.commands.is_empty());
    assert_eq!(o.response, "");
    assert!(state.scratchpads.is_empty());
}

#[test]
fn create_twice_keeps_one_register() {
    let mut state = State::new();
    let w1 = window(10, "shell", "term", Some(MAIN), false);
    let snap = snapshot(Some(w1.clone()), MAIN, vec![w1]);
    handle_action(&mut state, create(3), &snap).unwrap();
    handle_action(&mut state, create(3), &snap).unwrap();
    let w2 = window(20, "browser", "web", Some(MAIN), false);
    let snap = snapshot(Some(w2.clone()), MAIN, vec![w2]);
    handle_action(&mut state, create(3), &snap).unwrap();
    handle_action(&mut state, create(3), &snap).unwrap();
    assert_eq!(state.scratchpads.len(), 1);
    assert_eq!(state.get_scratchpad_by_number(3).unwrap().id, 20);
}

#[test]
fn sync_drops_closed_window_then_get_is_empty() {
    let mut state = State::new();
    state.add_scratchpad(3, 10, Some("shell".to_string()), None);
    let w2 = window(20, "browser", "web", Some(MAIN), false);
    let snap = snapshot(Some(w2.clone()), MAIN, vec![w2]);
    let o = handle_action(&mut state, Action::Sync, &snap).unwrap();
    assert_eq!(o.response, "");
    assert!(o.commands.is_empty());
    assert_eq!(state.get_scratchpad_by_number(3), None);
    assert_eq!(get(&mut state, 3, Output::Title, &snap), "");
}

#[test]
fn get_drops_closed_window() {
    let mut state = State::new();
    state.add_scratchpad(3, 10, Some("shell".to_string()), None);
    let snap = snapshot(None, MAIN, vec![]);
    assert_eq!(get(&mut state, 3, Output::Title, &snap), "");
    assert_eq!(state.get_scratchpad_by_number(3), None);
}

#[test]
fn get_never_created_register_is_empty() {
    let mut state = State::new();
    let snap = snapshot(None, MAIN, vec![]);
    assert_eq!(get(&mut state, 5, Output::Title, &snap), "");
    assert_eq!(get(&mut state, 5, Output::AppId, &snap), "");
}

#[test]
fn get_reports_refreshed_fields() {
    let mut state = State::new();
    state.add_scratchpad(3, 10, Some("old".to_string()), None);
    state.add_scratchpad(4, 11, None, None);
    let w1 = window(10, "new", "term", Some(MAIN), false);
    let mut w2 = window(11, "x", "y", Some(MAIN), false);
    w2.title = None;
    let snap = snapshot(None, MAIN, vec![w1, w2]);
    assert_eq!(get(&mut state, 3, Output::Title, &snap), "new");
    assert_eq!(get(&mut state, 3, Output::AppId, &snap), "term");
    assert_eq!(get(&mut state, 4, Output::Title, &snap), "");
    assert_eq!(get(&mut state, 4, Output::AppId, &snap), "y");
}

#[test]
fn sync_keeps_live_and_drops_every_orphan() {
    let mut state = State::new();
    state.add_scratchpad(1, 10, None, None);
    state.add_scratchpad(2, 11, None, None);
    state.add_scratchpad(3, 12, None, None);
    state.add_scratchpad(4, 13, Some("stale".to_string()), None);
    let w = window(13, "current", "app", Some(MAIN), false);
    let snap = snapshot(None, MAIN, vec![w]);
    handle_action(&mut state, Action::Sync, &snap).unwrap();
    assert_eq!(state.scratchpads.len(), 1);
    let reg = state.get_scratchpad_by_number(4).unwrap();
    assert_eq!(reg.title.as_deref(), Some("current"));
    assert_eq!(reg.app_id.as_deref(), Some("app"));
    assert_eq!(reg.id, 13);
}

#[test]
fn delete_summons_hidden_window_then_forgets() {
    let mut state = State::new();
    state.add_scratchpad(3, 10, None, None);
    let w1 = window(10, "shell", "term", Some(STASH), false);
    let w2 = window(20, "browser", "web", Some(MAIN), false);
    let snap = snapshot(Some(w2.clone()), MAIN, vec![w1, w2]);
    let action = Action::Delete { scratchpad_number: 3, output: None };
    let o = handle_action(&mut state, action, &snap).unwrap();
    assert_eq!(o.commands, summon_of(10, MAIN));
    assert_eq!(o.response, "");
    assert_eq!(state.get_scratchpad_by_number(3), None);
    assert_eq!(get(&mut state, 3, Output::Title, &snap), "");
}

#[test]
fn delete_of_dropped_register_still_forgets() {
    let mut state = State::new();
    state.add_scratchpad(3, 10, None, None);
    let snap = snapshot(None, MAIN, vec![]);
    let action = Action::Delete { scratchpad_number: 3, output: None };
    handle_action(&mut state, action, &snap).unwrap();
    assert_eq!(state.get_scratchpad_by_number(3), None);
}

#[test]
fn delete_with_output_does_nothing() {
    let mut state = State::new();
    state.add_scratchpad(3, 10, None, None);
    let w1 = window(10, "shell", "term", Some(STASH), false);
    let snap = snapshot(None, MAIN, vec![w1]);
    let action = Action::Delete { scratchpad_number: 3, output: Some(Output::Title) };
    let o = handle_action(&mut state, action, &snap).unwrap();
    assert!(o.commands.is_empty());
    assert_eq!(o.response, "");
    assert_eq!(state.get_scratchpad_by_number(3).unwrap().id, 10);
}

#[test]
fn daemon_probe_gets_no_response() {
    let mut state = State::new();
    state.add_scratchpad(3, 10, None, None);
    let snap = snapshot(None, MAIN, vec![]);
    assert!(handle_action(&mut state, Action::Daemon, &snap).is_none());
    assert_eq!(state.scratchpads.len(), 1);
}

#[test]
fn stash_without_stash_workspace_does_nothing() {
    let mut state = State::new();
    state.add_scratchpad(3, 10, None, None);
    let w1 = window(10, "shell", "term", Some(MAIN), false);
    let mut snap = snapshot(Some(w1.clone()), MAIN, vec![w1]);
    snap.workspaces = vec![WorkspaceInfo { id: MAIN, name: None, is_focused: true }];
    assert!(stash(&state, &snap, Some(3)).is_empty());
    let o = handle_action(&mut state, create(3), &snap).unwrap();
    assert!(o.commands.is_empty());
}

#[test]
fn stash_all_moves_every_tracked_window() {
    let mut state = State::new();
    state.add_scratchpad(1, 10, None, None);
    state.add_scratchpad(2, 12, None, None);
    let windows = vec![
        window(10, "a", "a", Some(MAIN), false),
        window(11, "b", "b", Some(MAIN), false),
        window(12, "c", "c", Some(OTHER), false),
    ];
    let snap = snapshot(None, MAIN, windows);
    assert_eq!(stash(&state, &snap, None), vec![stash_of(10), stash_of(12)]);
    assert_eq!(stash(&state, &snap, Some(2)), vec![stash_of(12)]);
    assert!(stash(&state, &snap, Some(7)).is_empty());
}

#[test]
fn summon_edge_cases() {
    let mut state = State::new();
    state.add_scratchpad(1, 10, None, None);
    let w1 = window(10, "a", "a", Some(MAIN), false);
    let snap = snapshot(Some(w1.clone()), MAIN, vec![w1.clone()]);
    // already focused
    assert!(summon(&state, &snap, ScratchpadInformation::Id(1)).is_empty());
    // unknown register
    assert!(summon(&state, &snap, ScratchpadInformation::Id(2)).is_empty());
    // no focused output
    let mut no_output = snapshot(None, MAIN, vec![w1.clone()]);
    no_output.focused_output = None;
    assert!(summon_window(10, &no_output).is_empty());
    // no focused workspace: only the move to the output
    let mut no_ws = snapshot(None, MAIN, vec![w1]);
    no_ws.workspaces = vec![];
    assert_eq!(
        summon_window(10, &no_ws),
        vec![Command::MoveToMonitor { window_id: 10, output: "DP-1".to_string() }]
    );
    let reg = state.get_scratchpad_by_number(1).unwrap();
    let other = snapshot(None, OTHER, vec![]);
    assert_eq!(summon(&state, &other, ScratchpadInformation::Scratchpad(&reg)), summon_of(10, OTHER));
}

#[test]
fn layout_commands() {
    assert_eq!(set_floating(7), Command::SetFloating { window_id: 7 });
    assert_eq!(set_tiling(7), Command::SetTiling { window_id: 7 });
}

#[test]
fn delete_of_absent_register_does_nothing() {
    let mut state = State::new();
    state.add_scratchpad(1, 10, None, None);
    let w1 = window(10, "shell", "term", Some(STASH), false);
    let snap = snapshot(None, MAIN, vec![w1]);
    let action = Action::Delete { scratchpad_number: 9, output: None };
    let o = handle_action(&mut state, action, &snap).unwrap();
    assert!(o.commands.is_empty());
    assert_eq!(o.response, "");
    assert_eq!(state.scratchpads.len(), 1);
}
