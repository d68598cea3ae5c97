use niri_scratchpad::compositor::WindowInfo;
use niri_scratchpad::scratchpad_action::{
    check_status, get_all_scratchpad_status, ScratchpadStatus,
};
use niri_scratchpad::state::{AddResult, Scratchpad, ScratchpadUpdate, State};

fn sp(number: i32, id: u64, title: &str) -> Scratchpad {
    Scratchpad {
        title: Some(title.to_string()),
        app_id: None,
        id,
        scratchpad_number: number,
    }
}

fn live(id: u64, title: &str, app_id: &str) -> WindowInfo {
    WindowInfo {
        id,
        title: Some(title.to_string()),
        app_id: Some(app_id.to_string()),
        workspace_id: Some(1),
        is_floating: false,
    }
}

#[test]
fn new_store_is_empty() {
    let state = State::new();
    assert!(state.scratchpads.is_empty());
    assert_eq!(state.get_scratchpad_by_number(1), None);
    let default_state = State::default();
    assert!(default_state.scratchpads.is_empty());
}

#[test]
fn add_then_get() {
    let mut state = State::new();
    let r = state.add_scratchpad(3, 10, Some("shell".to_string()), Some("term".to_string()));
    assert!(matches!(r, AddResult::Added));
    let got = state.get_scratchpad_by_number(3).unwrap();
    assert_eq!(got.id, 10);
    assert_eq!(got.title.as_deref(), Some("shell"));
    assert_eq!(got.app_id.as_deref(), Some("term"));
    assert_eq!(state.get_scratchpad_ref_by_number(3), Some(&got));
    assert_eq!(state.get_scratchpad_ref_by_number(4), None);
}

#[test]
fn add_same_number_replaces_in_place() {
    let mut state = State::new();
    state.add_scratchpad(3, 10, None, None);
    state.add_scratchpad(4, 11, None, None);
    let r = state.add_scratchpad(3, 20, Some("new".to_string()), None);
    match r {
        AddResult::AlreadyExists(prev) => assert_eq!(prev.id, 10),
        AddResult::Added => panic!("register 3 was bound already"),
    }
    assert_eq!(state.scratchpads.len(), 2);
    assert_eq!(state.get_scratchpad_by_number(3).unwrap().id, 20);
    assert_eq!(state.get_scratchpad_by_number(4).unwrap().id, 11);
}

#[test]
fn delete_removes_only_that_number() {
    let mut state = State::new();
    state.add_scratchpad(1, 10, None, None);
    state.add_scratchpad(2, 11, None, None);
    state.delete_scratchpad(1);
    assert_eq!(state.get_scratchpad_by_number(1), None);
    assert_eq!(state.get_scratchpad_by_number(2).unwrap().id, 11);
    state.delete_scratchpad(7);
    assert_eq!(state.scratchpads.len(), 1);
}

#[test]
fn update_ignores_unknown_number() {
    let mut state = State::new();
    state.add_scratchpad(1, 10, None, None);
    state.update_scratchpad(sp(5, 50, "x"));
    assert_eq!(state.scratchpads.len(), 1);
    assert_eq!(state.get_scratchpad_by_number(5), None);
    state.update_scratchpad(sp(1, 10, "renamed"));
    assert_eq!(
        state.get_scratchpad_by_number(1).unwrap().title.as_deref(),
        Some("renamed")
    );
}

#[test]
fn tracked_lists_every_register() {
    let mut state = State::new();
    state.add_scratchpad(1, 10, None, None);
    state.add_scratchpad(2, 11, None, None);
    let listed = state.get_tracked_scratchpads();
    assert_eq!(listed.len(), 2);
    assert_eq!(listed[0].scratchpad_number, 1);
    assert_eq!(listed[1].scratchpad_number, 2);
}

#[test]
fn batch_applies_in_order() {
    let mut state = State::new();
    state.add_scratchpad(1, 10, None, None);
    state.add_scratchpad(2, 11, None, None);
    state.syncronize_scratchpads(vec![
        ScratchpadUpdate::Update(sp(1, 10, "one")),
        ScratchpadUpdate::Delete(2),
        ScratchpadUpdate::Add(sp(3, 12, "three")),
        ScratchpadUpdate::Add(sp(3, 13, "again")),
        ScratchpadUpdate::Update(sp(9, 99, "missing")),
    ]);
    assert_eq!(state.scratchpads.len(), 2);
    assert_eq!(
        state.get_scratchpad_by_number(1).unwrap().title.as_deref(),
        Some("one")
    );
    assert_eq!(state.get_scratchpad_by_number(2), None);
    assert_eq!(state.get_scratchpad_by_number(3).unwrap().id, 13);
    assert_eq!(state.get_scratchpad_by_number(9), None);
}

#[test]
fn status_follows_live_windows() {
    let windows = vec![live(10, "a", "x")];
    assert_eq!(check_status(&sp(1, 10, "a"), &windows), ScratchpadStatus::WindowMapped);
    assert_eq!(check_status(&sp(1, 11, "a"), &windows), ScratchpadStatus::WindowDropped);
    assert_eq!(check_status(&sp(1, 10, "a"), &vec![]), ScratchpadStatus::WindowDropped);
}

#[test]
fn full_sync_batch_deletes_every_orphan() {
    let a = sp(1, 10, "old");
    let b = sp(2, 11, "gone");
    let c = sp(3, 12, "gone too");
    let windows = vec![live(10, "fresh", "term")];
    let batch = get_all_scratchpad_status(vec![&a, &b, &c], &windows);
    assert_eq!(batch.len(), 3);
    match &batch[0] {
        ScratchpadUpdate::Update(s) => {
            assert_eq!(s.scratchpad_number, 1);
            assert_eq!(s.id, 10);
            assert_eq!(s.title.as_deref(), Some("fresh"));
            assert_eq!(s.app_id.as_deref(), Some("term"));
        }
        _ => panic!("register 1 is live"),
    }
    assert!(matches!(batch[1], ScratchpadUpdate::Delete(2)));
    assert!(matches!(batch[2], ScratchpadUpdate::Delete(3)));
}
