use clipz_core::model::{BackendMessage, Entry, EntryKind};
use clipz_core::state::ViewState;

fn entry(id: usize, content: &str, is_current: bool) -> Entry {
    Entry {
        id,
        content: content.to_string(),
        timestamp: 0,
        kind: EntryKind::Text,
        is_current,
    }
}

fn state_with(entries: Vec<Entry>, focus: Option<usize>) -> ViewState {
    let mut st = ViewState::new();
    st.entries = entries;
    st.focused_index = focus;
    st
}

#[test]
fn new_state_is_empty() {
    let st = ViewState::new();
    assert_eq!(st.entries.len(), 0);
    assert_eq!(st.search, "");
    assert!(st.focused_index.is_none());
}

#[test]
fn filter_with_empty_search_is_identity() {
    let st = state_with(vec![entry(1, "alpha", true), entry(2, "beta", false)], None);
    let f = st.filtered();
    assert_eq!(f.len(), 2);
    assert_eq!(f[0].id, 1);
    assert_eq!(f[0].content, "alpha");
    assert_eq!(f[1].id, 2);
    assert_eq!(f[1].content, "beta");
}

#[test]
fn filter_is_case_insensitive_substring() {
    let mut st = state_with(
        vec![
            entry(1, "Hello World", false),
            entry(2, "goodbye", false),
            entry(3, "WORLD news", false),
        ],
        None,
    );
    st.search = "wOrLd".to_string();
    let f = st.filtered();
    assert_eq!(f.len(), 2);
    assert_eq!(f[0].id, 1);
    assert_eq!(f[1].id, 3);
}

#[test]
fn select_marks_exactly_one_current() {
    let mut st = state_with(vec![entry(1, "a", true), entry(2, "b", false)], None);
    let cmds = st.select(2);
    assert!(!st.entries[0].is_current);
    assert!(st.entries[1].is_current);
    assert_eq!(cmds, vec!["select-entry:2".to_string(), "get-entries".to_string()]);
}

#[test]
fn remove_deletes_locally_and_orders_commands() {
    // remove(2) on [1,2,3]: the snapshot immediately becomes [1,3], and the
    // wire sees remove-entry:2 followed by get-entries.
    let mut st = state_with(
        vec![entry(1, "a", false), entry(2, "b", false), entry(3, "c", false)],
        None,
    );
    let cmds = st.remove(2);
    assert_eq!(st.entries.len(), 2);
    assert_eq!(st.entries[0].id, 1);
    assert_eq!(st.entries[1].id, 3);
    assert_eq!(cmds, vec!["remove-entry:2".to_string(), "get-entries".to_string()]);
}

#[test]
fn clear_keeps_only_the_current_entry() {
    // clear() with a current entry keeps exactly it, before any backend
    // response arrives.
    let mut st = state_with(vec![entry(1, "a", true), entry(2, "b", false)], None);
    let cmds = st.clear();
    assert_eq!(st.entries.len(), 1);
    assert_eq!(st.entries[0].id, 1);
    assert_eq!(st.entries[0].content, "a");
    assert_eq!(cmds, vec!["clear".to_string(), "get-entries".to_string()]);
}

#[test]
fn clear_without_current_empties_the_snapshot() {
    let mut st = state_with(vec![entry(1, "a", false), entry(2, "b", false)], None);
    st.clear();
    assert_eq!(st.entries.len(), 0);
}

#[test]
fn snapshot_push_clamps_the_cursor() {
    // focus at index 2 (id 3); the backend pushes a snapshot without id 3:
    // focus clamps to index 1 (id 2).
    let mut st = state_with(
        vec![entry(1, "a", true), entry(2, "b", false), entry(3, "c", false)],
        Some(2),
    );
    let push = BackendMessage::Entries(vec![entry(1, "a", true), entry(2, "b", false)]);
    let (cmds, changed) = st.poll(&vec![push]);
    assert!(changed);
    assert!(cmds.is_empty());
    assert_eq!(st.focused_index, Some(1));
    assert_eq!(st.entries[st.focused_index.unwrap()].id, 2);
}

#[test]
fn push_of_empty_snapshot_clears_the_cursor() {
    let mut st = state_with(vec![entry(1, "a", false)], Some(0));
    st.poll(&vec![BackendMessage::Entries(vec![])]);
    assert!(st.focused_index.is_none());
}

#[test]
fn last_push_wins_over_optimistic_state() {
    // Optimistic edits never persist past the next authoritative push: after
    // draining, the snapshot equals the most recent Entries payload.
    let mut st = state_with(vec![entry(9, "junk", false)], None);
    st.remove(9);
    let msgs = vec![
        BackendMessage::SelectSuccess(0),
        BackendMessage::Entries(vec![entry(1, "first", false)]),
        BackendMessage::Ready,
        BackendMessage::Entries(vec![entry(2, "second", false), entry(3, "third", false)]),
    ];
    let (cmds, changed) = st.poll(&msgs);
    assert!(changed);
    assert_eq!(st.entries.len(), 2);
    assert_eq!(st.entries[0].id, 2);
    assert_eq!(st.entries[0].content, "second");
    assert_eq!(st.entries[1].id, 3);
    // one refresh per trigger, in order
    assert_eq!(cmds, vec!["get-entries".to_string(), "get-entries".to_string()]);
}

#[test]
fn poll_of_nothing_reports_no_change() {
    let mut st = ViewState::new();
    let (cmds, changed) = st.poll(&vec![]);
    assert!(!changed);
    assert!(cmds.is_empty());
}

#[test]
fn unknown_only_drain_reports_no_change() {
    // an Unknown-only drain changes no state and produces no command, so
    // no re-render is warranted
    let mut st = state_with(vec![entry(1, "a", false)], Some(0));
    let (cmds, changed) = st.poll(&vec![BackendMessage::Unknown, BackendMessage::Unknown]);
    assert!(!changed);
    assert!(cmds.is_empty());
    assert_eq!(st.entries.len(), 1);
    assert_eq!(st.focused_index, Some(0));
}

#[test]
fn refresh_trigger_drain_reports_change() {
    // a confirmation produces a refresh command, so something happened
    let mut st = state_with(vec![entry(1, "a", false)], Some(0));
    let (cmds, changed) = st.poll(&vec![BackendMessage::SelectSuccess(0)]);
    assert!(changed);
    assert_eq!(cmds, vec!["get-entries".to_string()]);
}

#[test]
fn cursor_stays_in_bounds_after_every_mutation() {
    // the focus invariant: None, or strictly under the filtered length
    let mut st = state_with(
        vec![entry(1, "a", false), entry(2, "b", false), entry(3, "c", false)],
        Some(2),
    );
    st.remove(3);
    assert!(st.focused_index.unwrap() < st.filtered().len());
    st.remove(2);
    assert!(st.focused_index.unwrap() < st.filtered().len());
    st.clear();
    assert!(st.focused_index.is_none());
    st.set_search("zzz".to_string());
    assert!(st.focused_index.is_none());
}

#[test]
fn set_search_clamps_against_the_new_view() {
    let mut st = state_with(
        vec![entry(1, "apple", false), entry(2, "banana", false), entry(3, "apricot", false)],
        Some(2),
    );
    st.set_search("ap".to_string());
    assert_eq!(st.filtered().len(), 2);
    assert_eq!(st.focused_index, Some(1));
}

#[test]
fn cursor_wraps_both_ways() {
    let mut st = state_with(vec![entry(1, "a", false), entry(2, "b", false)], None);
    st.init_focus();
    assert_eq!(st.focused_index, Some(0));
    st.focus_prev();
    assert_eq!(st.focused_index, Some(1));
    st.focus_next();
    assert_eq!(st.focused_index, Some(0));
    st.focus_next();
    assert_eq!(st.focused_index, Some(1));
}

#[test]
fn cursor_moves_are_noops_on_empty_view() {
    let mut st = ViewState::new();
    st.init_focus();
    assert!(st.focused_index.is_none());
    st.focus_next();
    assert!(st.focused_index.is_none());
    st.focus_prev();
    assert!(st.focused_index.is_none());
}

#[test]
fn confirm_resolves_the_filtered_index_to_an_id() {
    let mut st = state_with(
        vec![entry(1, "apple", false), entry(2, "banana", false), entry(3, "apricot", false)],
        None,
    );
    st.set_search("ap".to_string());
    st.init_focus();
    st.focus_next();
    // filtered view is [apple, apricot]; cursor on index 1
    assert_eq!(st.focused_entry_id(), Some(3));
    st.search = String::new();
    st.focused_index = None;
    assert_eq!(st.focused_entry_id(), None);
}
