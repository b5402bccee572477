use asaru::asana::SearchTasksData;
use asaru::controller::{all_resolved, State};

fn item(gid: &str, name: &str) -> SearchTasksData {
    SearchTasksData::new(gid.to_string(), name.to_string(), "task".to_string())
}

fn three() -> Vec<SearchTasksData> {
    vec![item("1", "alpha"), item("2", "beta"), item("3", "gamma")]
}

#[test]
fn new_state_is_empty() {
    let s = State::new("ws", "secret");
    assert_eq!(s.text(), "");
    assert!(s.tasks().is_empty());
    assert_eq!(s.index(), 0);
    assert!(s.checked().is_empty());
    assert_eq!(s.workspace_gid(), "ws");
    assert_eq!(s.pats(), "secret");
}

#[test]
fn edit_text_replaces_the_query() {
    let s = State::new("ws", "p").edit_text("abc").edit_text("日本");
    assert_eq!(s.text(), "日本");
}

#[test]
fn index_moves() {
    let s = State::new("ws", "p").search(three());
    let s = s.inc_index().inc_index();
    assert_eq!(s.index(), 2);
    let s = s.dec_index();
    assert_eq!(s.index(), 1);
    let s = s.edit_index(2);
    assert_eq!(s.index(), 2);
    let s = s.clear_index();
    assert_eq!(s.index(), 0);
}

#[test]
fn search_replaces_results_and_resets() {
    let s = State::new("ws", "p").edit_text("q").search(three());
    let s = s.edit_index(2).check().edit_index(0).check();
    assert_eq!(s.checked().len(), 2);
    let s = s.search(vec![item("9", "delta"), item("8", "eps")]);
    assert_eq!(s.index(), 0);
    assert!(s.checked().is_empty());
    assert_eq!(s.get_titles(), vec!["delta".to_string(), "eps".to_string()]);
    assert_eq!(s.text(), "q");
}

#[test]
fn search_with_nothing_found_empties_the_list() {
    let s = State::new("ws", "p").search(three()).check();
    let s = s.search(Vec::new());
    assert!(s.tasks().is_empty());
    assert!(s.checked().is_empty());
}

#[test]
fn titles_come_in_order() {
    let s = State::new("ws", "p").search(three());
    assert_eq!(
        s.get_titles(),
        vec!["alpha".to_string(), "beta".to_string(), "gamma".to_string()]
    );
}

#[test]
fn check_marks_the_selected_row() {
    let s = State::new("ws", "p").search(three()).edit_index(1).check();
    assert!(s.is_checked(&1));
    assert!(!s.is_checked(&0));
    assert_eq!(s.checked().len(), 1);
}

#[test]
fn check_outside_the_list_does_nothing() {
    let s = State::new("ws", "p").check();
    assert!(s.checked().is_empty());
    let s = State::new("ws", "p").search(three()).edit_index(5).check();
    assert!(s.checked().is_empty());
}

#[test]
fn uncheck_takes_the_mark_off() {
    let s = State::new("ws", "p").search(three()).edit_index(1).check().uncheck();
    assert!(!s.is_checked(&1));
    assert!(s.checked().is_empty());
}

#[test]
fn mark_then_unmark_restores_the_marks() {
    let s = State::new("ws", "p").search(three()).edit_index(2).check().edit_index(0);
    let before = s.checked().clone();
    let s = s.check().uncheck();
    assert_eq!(s.checked(), &before);
}

#[test]
fn toggle_twice_restores_the_marks() {
    let s = State::new("ws", "p").search(three()).edit_index(1);
    let s = s.toggle_mark();
    assert!(s.is_checked(&1));
    let s = s.toggle_mark();
    assert!(s.checked().is_empty());
    let s = s.check().toggle_mark().toggle_mark();
    assert!(s.is_checked(&1));
    assert_eq!(s.checked().len(), 1);
}

#[test]
fn toggle_on_empty_results_is_a_no_op() {
    let s = State::new("ws", "p").toggle_mark();
    assert!(s.checked().is_empty());
}

#[test]
fn selected_task_is_the_row_under_the_cursor() {
    let s = State::new("ws", "p").search(three()).edit_index(1);
    assert_eq!(s.selected_task().map(|t| t.gid().to_string()), Some("2".to_string()));
    let s = s.edit_index(3);
    assert!(s.selected_task().is_none());
}

#[test]
fn marked_indices_ascend() {
    let s = State::new("ws", "p").search(three());
    let s = s.edit_index(2).check().edit_index(0).check();
    assert_eq!(s.marked_indices(), vec![0, 2]);
}

#[test]
fn resolve_targets_without_marks_is_the_selected_row() {
    let s = State::new("ws", "p").search(three()).edit_index(2);
    assert_eq!(s.resolve_targets(), vec!["3".to_string()]);
}

#[test]
fn resolve_targets_with_marks_are_the_marked_rows() {
    let s = State::new("ws", "p").search(three());
    let s = s.edit_index(2).check().edit_index(1).check().edit_index(0);
    assert_eq!(s.resolve_targets(), vec!["2".to_string(), "3".to_string()]);
}

#[test]
fn resolve_targets_outside_the_list_is_empty() {
    let s = State::new("ws", "p");
    assert!(s.resolve_targets().is_empty());
}

#[test]
fn all_resolved_keeps_every_link_in_order() {
    let found = vec![
        Some("https://x/1/f".to_string()),
        Some("https://x/2/f".to_string()),
        Some("https://x/3/f".to_string()),
    ];
    assert_eq!(
        all_resolved(&found),
        Some(vec![
            "https://x/1/f".to_string(),
            "https://x/2/f".to_string(),
            "https://x/3/f".to_string()
        ])
    );
}

#[test]
fn all_resolved_fails_on_any_failure() {
    let found = vec![Some("https://x/1/f".to_string()), None, Some("https://x/3/f".to_string())];
    assert_eq!(all_resolved(&found), None);
    assert_eq!(all_resolved(&vec![None]), None);
}

#[test]
fn all_resolved_of_nothing_is_empty() {
    assert_eq!(all_resolved(&Vec::new()), Some(Vec::new()));
}
