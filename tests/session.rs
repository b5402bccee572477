use asaru::asana::{permalink_url_from_json, SearchTasksData};
use asaru::controller::all_resolved;
use asaru::terminal::{Action, Key, Mode, Session};

const ROWS: u16 = 24;

fn item(gid: &str, name: &str) -> SearchTasksData {
    SearchTasksData::new(gid.to_string(), name.to_string(), "task".to_string())
}

fn press(s: Session, key: Key) -> (Session, Action) {
    s.handle_key(key, ROWS)
}

fn type_text(mut s: Session, text: &str) -> Session {
    for c in text.chars() {
        let (n, a) = press(s, Key::Char(c));
        assert_eq!(a, Action::Redraw);
        s = n;
    }
    s
}

fn with_results(n: usize) -> Session {
    let s = type_text(Session::new("ws", "p"), "q");
    let (s, a) = press(s, Key::Char('\n'));
    assert_eq!(a, Action::Search);
    let items = (0..n).map(|i| item(&(i + 1).to_string(), &format!("task {}", i + 1))).collect();
    s.finish_search(Some(items))
}

#[test]
fn session_starts_at_an_empty_prompt() {
    let s = Session::new("ws", "p");
    assert_eq!(s.mode(), Mode::Prompt);
    assert_eq!(s.cursor(), 0);
    assert_eq!(s.state().text(), "");
    assert!(!s.search_failed());
}

#[test]
fn typing_fills_the_query_and_moves_the_cursor() {
    let s = type_text(Session::new("ws", "p"), "a日b");
    assert_eq!(s.state().text(), "a日b");
    assert_eq!(s.cursor(), 4);
}

#[test]
fn prompt_editing_keys() {
    let s = type_text(Session::new("ws", "p"), "a日b");
    let (s, a) = press(s, Key::Left);
    assert_eq!((a, s.cursor()), (Action::Redraw, 3));
    let (s, _) = press(s, Key::Ctrl('b'));
    assert_eq!(s.cursor(), 1);
    let (s, _) = press(s, Key::Right);
    assert_eq!(s.cursor(), 3);
    let (s, _) = press(s, Key::Backspace);
    assert_eq!((s.state().text(), s.cursor()), ("ab", 1));
    let (s, _) = press(s, Key::Ctrl('e'));
    assert_eq!(s.cursor(), 2);
    let (s, _) = press(s, Key::Ctrl('a'));
    assert_eq!(s.cursor(), 0);
    let (s, _) = press(s, Key::Ctrl('f'));
    let (s, _) = press(s, Key::Ctrl('k'));
    assert_eq!((s.state().text(), s.cursor()), ("a", 1));
    let (s, _) = press(s, Key::Ctrl('h'));
    assert_eq!((s.state().text(), s.cursor()), ("", 0));
}

#[test]
fn prompt_keys_at_the_edges_are_ignored() {
    let s = Session::new("ws", "p");
    let (s, a) = press(s, Key::Left);
    assert_eq!(a, Action::Ignore);
    let (s, a) = press(s, Key::Backspace);
    assert_eq!(a, Action::Ignore);
    let (s, a) = press(s, Key::Right);
    assert_eq!(a, Action::Ignore);
    let (s, a) = press(s, Key::Down);
    assert_eq!(a, Action::Ignore);
    let (s, a) = press(s, Key::Char('\t'));
    assert_eq!(a, Action::Ignore);
    let (s, a) = press(s, Key::Other);
    assert_eq!(a, Action::Ignore);
    assert_eq!(s.mode(), Mode::Prompt);
    assert_eq!(s.state().text(), "");
}

#[test]
fn ctrl_c_quits_in_both_modes() {
    let (_, a) = press(Session::new("ws", "p"), Key::Ctrl('c'));
    assert_eq!(a, Action::Quit);
    let (_, a) = press(with_results(2), Key::Ctrl('c'));
    assert_eq!(a, Action::Quit);
}

#[test]
fn search_with_items_goes_to_the_results() {
    let s = with_results(3);
    assert_eq!(s.mode(), Mode::Results);
    assert_eq!(s.state().index(), 0);
    assert!(s.state().checked().is_empty());
    assert_eq!(s.state().tasks().len(), 3);
}

#[test]
fn search_again_clears_marks_and_selection() {
    let s = with_results(3);
    let (s, _) = press(s, Key::Down);
    let (s, _) = press(s, Key::Char('\t'));
    let (s, _) = press(s, Key::Ctrl('s'));
    let (s, a) = press(s, Key::Char('\n'));
    assert_eq!(a, Action::Search);
    let s = s.finish_search(Some(vec![item("5", "five"), item("6", "six")]));
    assert_eq!(s.mode(), Mode::Results);
    assert_eq!(s.state().index(), 0);
    assert!(s.state().checked().is_empty());
}

#[test]
fn search_that_finds_nothing_stays_at_the_prompt() {
    let s = type_text(Session::new("ws", "p"), "nonexistent");
    let (s, a) = press(s, Key::Char('\n'));
    assert_eq!(a, Action::Search);
    let s = s.finish_search(Some(Vec::new()));
    assert_eq!(s.mode(), Mode::Prompt);
    assert_eq!(s.state().text(), "nonexistent");
    assert_eq!(s.cursor(), 11);
    assert!(s.state().checked().is_empty());
    let (s, a) = press(s, Key::Char('!'));
    assert_eq!(a, Action::Redraw);
    assert_eq!(s.state().text(), "nonexistent!");
}

#[test]
fn failed_search_stays_at_the_prompt() {
    let s = type_text(Session::new("ws", "p"), "abc");
    let (s, _) = press(s, Key::Left);
    let s = s.finish_search(None);
    assert_eq!(s.mode(), Mode::Prompt);
    assert!(s.search_failed());
    assert_eq!(s.state().text(), "abc");
    assert_eq!(s.cursor(), 2);
    let s = s.finish_search(Some(vec![item("1", "one")]));
    assert!(!s.search_failed());
}

#[test]
fn down_from_the_prompt_enters_the_results() {
    let s = with_results(2);
    let (s, _) = press(s, Key::Ctrl('s'));
    assert_eq!(s.mode(), Mode::Prompt);
    assert_eq!(s.cursor(), 1);
    let (s, a) = press(s, Key::Ctrl('n'));
    assert_eq!(a, Action::Redraw);
    assert_eq!(s.mode(), Mode::Results);
    assert_eq!(s.state().index(), 0);
}

#[test]
fn up_at_the_first_row_returns_to_the_prompt() {
    let s = with_results(3);
    let (s, a) = press(s, Key::Up);
    assert_eq!(a, Action::Redraw);
    assert_eq!(s.mode(), Mode::Prompt);
    assert_eq!(s.state().index(), 0);
    assert_eq!(s.cursor(), 1);
}

#[test]
fn up_below_the_first_row_moves_up() {
    let s = with_results(3);
    let (s, _) = press(s, Key::Down);
    let (s, _) = press(s, Key::Down);
    let (s, _) = press(s, Key::Ctrl('p'));
    assert_eq!(s.mode(), Mode::Results);
    assert_eq!(s.state().index(), 1);
}

#[test]
fn down_at_the_last_item_is_a_no_op() {
    let s = with_results(2);
    let (s, a) = press(s, Key::Down);
    assert_eq!(a, Action::Redraw);
    assert_eq!(s.state().index(), 1);
    let (s, a) = press(s, Key::Down);
    assert_eq!(a, Action::Ignore);
    assert_eq!(s.state().index(), 1);
    assert_eq!(s.mode(), Mode::Results);
}

#[test]
fn down_at_the_last_visible_row_is_a_no_op() {
    let s = with_results(10);
    let (s, _) = s.handle_key(Key::Down, 7);
    let (s, _) = s.handle_key(Key::Down, 7);
    assert_eq!(s.state().index(), 2);
    let (s, a) = s.handle_key(Key::Down, 7);
    assert_eq!(a, Action::Ignore);
    assert_eq!(s.state().index(), 2);
}

#[test]
fn page_keys_jump() {
    let s = with_results(30);
    let (s, a) = press(s, Key::PageDown);
    assert_eq!(a, Action::Redraw);
    assert_eq!(s.state().index(), 19);
    let (s, _) = press(s, Key::PageUp);
    assert_eq!(s.state().index(), 0);
    let s = with_results(3);
    let (s, _) = press(s, Key::PageDown);
    assert_eq!(s.state().index(), 2);
    let (s, _) = s.handle_key(Key::PageDown, 3);
    assert_eq!(s.state().index(), 0);
}

#[test]
fn tab_toggles_the_mark() {
    let s = with_results(3);
    let (s, a) = press(s, Key::Char('\t'));
    assert_eq!(a, Action::Redraw);
    assert!(s.state().is_checked(&0));
    let (s, _) = press(s, Key::Char('\t'));
    assert!(s.state().checked().is_empty());
}

#[test]
fn enter_in_the_results_asks_for_the_selected_row() {
    let s = with_results(3);
    let (s, _) = press(s, Key::Down);
    let (s, a) = press(s, Key::Char('\n'));
    assert_eq!(a, Action::Resolve);
    assert_eq!(s.state().resolve_targets(), vec!["2".to_string()]);
}

#[test]
fn results_keys_not_listed_are_ignored() {
    let s = with_results(3);
    let (s, a) = press(s, Key::Char('x'));
    assert_eq!(a, Action::Ignore);
    let (s, a) = press(s, Key::Left);
    assert_eq!(a, Action::Ignore);
    assert_eq!(s.mode(), Mode::Results);
    assert_eq!(s.state().text(), "q");
}

#[test]
fn launch_scenario_resolves_both_marked_items() {
    let s = type_text(Session::new("ws", "p"), "launch");
    let (s, a) = press(s, Key::Char('\n'));
    assert_eq!(a, Action::Search);
    let s = s.finish_search(Some(vec![item("1", "Launch plan"), item("2", "Launch retro")]));
    assert_eq!(s.mode(), Mode::Results);
    // back to the prompt, from where Down enters the list at its first row
    let (s, _) = press(s, Key::Up);
    assert_eq!(s.mode(), Mode::Prompt);
    let (s, _) = press(s, Key::Down);
    let (s, _) = press(s, Key::Char('\t'));
    let (s, _) = press(s, Key::Down);
    let (s, _) = press(s, Key::Char('\t'));
    let (s, a) = press(s, Key::Char('\n'));
    assert_eq!(a, Action::Resolve);
    let targets = s.state().resolve_targets();
    assert_eq!(targets, vec!["1".to_string(), "2".to_string()]);
    let found: Vec<Option<String>> = targets
        .iter()
        .map(|gid| {
            let body = format!(r#"{{"data":{{"permalink_url":"https://app.asana.com/0/0/{}"}}}}"#, gid);
            permalink_url_from_json(&body)
        })
        .collect();
    assert_eq!(
        all_resolved(&found),
        Some(vec![
            "https://app.asana.com/0/0/1/f".to_string(),
            "https://app.asana.com/0/0/2/f".to_string()
        ])
    );
}

#[test]
fn one_failed_lookup_fails_the_selection() {
    let s = with_results(3);
    let (s, _) = press(s, Key::Char('\t'));
    let (s, _) = press(s, Key::Down);
    let (s, _) = press(s, Key::Char('\t'));
    let targets = s.state().resolve_targets();
    assert_eq!(targets.len(), 2);
    let found = vec![permalink_url_from_json(r#"{"data":{"permalink_url":"https://x/1"}}"#), None];
    assert_eq!(all_resolved(&found), None);
}

#[test]
fn keys_right_after_a_search_start_from_the_first_row() {
    let s = type_text(Session::new("ws", "p"), "launch");
    let (s, _) = press(s, Key::Char('\n'));
    let s = s.finish_search(Some(vec![item("1", "Launch plan"), item("2", "Launch retro")]));
    let (s, _) = press(s, Key::Down);
    let (s, _) = press(s, Key::Char('\t'));
    let (s, a) = press(s, Key::Down);
    assert_eq!(a, Action::Ignore);
    let (s, _) = press(s, Key::Char('\t'));
    let (s, a) = press(s, Key::Char('\n'));
    assert_eq!(a, Action::Resolve);
    assert!(s.state().checked().is_empty());
    assert_eq!(s.state().resolve_targets(), vec!["2".to_string()]);
}
