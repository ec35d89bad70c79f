use jsonwatch::layout::Area;
use jsonwatch::snapshot::LoadError;
use jsonwatch::viewer::command_for;
use jsonwatch::viewer::marker_for;
use jsonwatch::viewer::Action;
use jsonwatch::viewer::App;
use jsonwatch::viewer::Command;
use jsonwatch::viewer::Event;
use jsonwatch::viewer::Key;
use jsonwatch::viewer::ALTERNATE_MARKER;
use jsonwatch::viewer::DEFAULT_MARKER;
use jsonwatch::viewer::POLL_CEILING_MS;

fn started(contents: &str) -> App {
    match App::new(Some(contents), DEFAULT_MARKER, 0) {
        Ok(app) => app,
        Err(e) => panic!("the baseline did not load: {:?}", e),
    }
}

fn shown(app: &App) -> Vec<(String, Vec<String>, bool)> {
    app.rows(Area { width: 40, height: 24 })
        .into_iter()
        .map(|row| (row.key, row.lines, row.changed))
        .collect()
}

#[test]
fn the_poll_ceiling_is_a_quarter_of_a_second() {
    assert_eq!(POLL_CEILING_MS, 250);
}

#[test]
fn marker_for_a_flag_that_starts_with_w() {
    assert_eq!(marker_for(Some("w")), ALTERNATE_MARKER);
    assert_eq!(marker_for(Some("W")), ALTERNATE_MARKER);
    assert_eq!(marker_for(Some("wizard")), ALTERNATE_MARKER);
    assert_eq!(marker_for(Some("Wizard")), ALTERNATE_MARKER);
    assert_eq!(ALTERNATE_MARKER, '\u{1F9D9}');
}

#[test]
fn marker_for_any_other_flag_and_for_none() {
    assert_eq!(marker_for(None), DEFAULT_MARKER);
    assert_eq!(marker_for(Some("")), DEFAULT_MARKER);
    assert_eq!(marker_for(Some("g")), DEFAULT_MARKER);
    assert_eq!(marker_for(Some("goblin")), DEFAULT_MARKER);
    assert_eq!(marker_for(Some("xw")), DEFAULT_MARKER);
    assert_eq!(DEFAULT_MARKER, '\u{1F9CC}');
}

#[test]
fn quit_keys() {
    assert_eq!(command_for(Key::Char('q'), 24), Command::Quit);
    assert_eq!(command_for(Key::Char('7'), 24), Command::Quit);
}

#[test]
fn line_keys() {
    assert_eq!(command_for(Key::Char('j'), 24), Command::Scroll(2));
    assert_eq!(command_for(Key::Char('k'), 24), Command::Scroll(-2));
    assert_eq!(command_for(Key::Down, 24), Command::Scroll(2));
    assert_eq!(command_for(Key::Up, 24), Command::Scroll(-2));
    assert_eq!(command_for(Key::Char('j'), 40), Command::Scroll(4));
    assert_eq!(command_for(Key::Char('j'), 3), Command::Scroll(0));
}

#[test]
fn page_keys() {
    assert_eq!(command_for(Key::PageDown, 24), Command::Scroll(23));
    assert_eq!(command_for(Key::PageUp, 24), Command::Scroll(-23));
    assert_eq!(command_for(Key::PageDown, 0), Command::Scroll(0));
}

#[test]
fn pane_key_and_other_keys() {
    assert_eq!(command_for(Key::Char('3'), 24), Command::SwitchPane);
    assert_eq!(command_for(Key::Char('x'), 24), Command::Ignore);
    assert_eq!(command_for(Key::Char('Q'), 24), Command::Ignore);
    assert_eq!(command_for(Key::Other, 24), Command::Ignore);
}

#[test]
fn app_new_fails_where_the_baseline_does_not_load() {
    assert_eq!(App::new(None, DEFAULT_MARKER, 0).err(), Some(LoadError::Read));
    assert_eq!(App::new(Some("{"), DEFAULT_MARKER, 0).err(), Some(LoadError::Parse));
}

#[test]
fn app_new_starts_with_nothing_selected_and_nothing_marked() {
    let app = match App::new(Some(r#"{"a":1}"#), ALTERNATE_MARKER, 42) {
        Ok(app) => app,
        Err(e) => panic!("the baseline did not load: {:?}", e),
    };
    assert_eq!(app.selected(), None);
    assert_eq!(app.picker().highlight_key(), None);
    assert_eq!(app.picker().last_hop_time(), 42);
    assert_eq!(app.marker(), ALTERNATE_MARKER);
    assert_eq!(app.store().row_count(), 1);
    assert!(!app.store().is_changed("a"));
}

#[test]
fn scroll_relative_stays_inside_the_table() {
    let mut app = started(r#"{"a":1,"b":2,"c":3}"#);
    app.scroll_relative(1);
    assert_eq!(app.selected(), Some(1));
    app.scroll_relative(10);
    assert_eq!(app.selected(), Some(2));
    app.scroll_relative(-10);
    assert_eq!(app.selected(), Some(0));
}

#[test]
fn scroll_relative_on_an_empty_table_selects_nothing() {
    let mut app = started("{}");
    app.scroll_relative(1);
    assert_eq!(app.selected(), None);
}

#[test]
fn handle_key_quits_without_touching_the_state() {
    let mut app = started(r#"{"a":1,"b":2}"#);
    app.scroll_relative(1);
    assert_eq!(app.handle_key(Key::Char('q'), 24), Action::Quit);
    assert_eq!(app.handle_key(Key::Char('7'), 24), Action::Quit);
    assert_eq!(app.selected(), Some(1));
}

#[test]
fn handle_key_scrolls() {
    let mut app = started("[0,1,2,3,4,5,6,7,8,9,10,11,12,13,14,15,16,17,18,19,20,21,22,23,24,25,26,27,28,29]");
    assert_eq!(app.handle_key(Key::Char('j'), 24), Action::Continue);
    assert_eq!(app.selected(), Some(2));
    assert_eq!(app.handle_key(Key::PageDown, 24), Action::Continue);
    assert_eq!(app.selected(), Some(25));
    assert_eq!(app.handle_key(Key::PageDown, 24), Action::Continue);
    assert_eq!(app.selected(), Some(29));
    assert_eq!(app.handle_key(Key::Char('k'), 24), Action::Continue);
    assert_eq!(app.selected(), Some(27));
    assert_eq!(app.handle_key(Key::PageUp, 24), Action::Continue);
    assert_eq!(app.selected(), Some(4));
    assert_eq!(app.handle_key(Key::PageUp, 24), Action::Continue);
    assert_eq!(app.selected(), Some(0));
}

#[test]
fn handle_key_asks_for_the_pane_switch_and_ignores_other_keys() {
    let mut app = started(r#"{"a":1,"b":2}"#);
    assert_eq!(app.handle_key(Key::Char('3'), 24), Action::SwitchPane);
    assert_eq!(app.handle_key(Key::Char('z'), 24), Action::Continue);
    assert_eq!(app.handle_key(Key::Other, 24), Action::Continue);
    assert_eq!(app.selected(), None);
}

#[test]
fn refresh_takes_in_the_new_contents() {
    let mut app = started(r#"{"a":1,"b":2}"#);
    app.refresh(Some(r#"{"a":1,"b":3}"#), 100);
    assert!(app.store().is_changed("b"));
    assert!(!app.store().is_changed("a"));
    assert_eq!(app.picker().highlight_key(), None);
    assert_eq!(app.picker().last_hop_time(), 0);
}

#[test]
fn refresh_lets_the_highlight_hop_after_five_seconds() {
    let mut app = started(r#"{"a":1,"b":2}"#);
    app.refresh(Some(r#"{"a":1,"b":3}"#), 4999);
    assert_eq!(app.picker().highlight_key(), None);
    app.refresh(Some(r#"{"a":1,"b":3}"#), 5000);
    assert_eq!(app.picker().highlight_key(), Some(&"b".to_string()));
    assert_eq!(app.picker().last_hop_time(), 5000);
    let rows = shown(&app);
    assert_eq!(rows[0], ("a".to_string(), vec!["1".to_string()], false));
    assert_eq!(rows[1], ("b".to_string(), vec!["3\u{1F9CC}".to_string()], true));
}

#[test]
fn failed_refresh_leaves_the_view_unchanged() {
    let mut app = started(r#"{"a":1,"b":2,"c":3}"#);
    app.refresh(Some(r#"{"a":1,"b":20,"c":3}"#), 6000);
    app.scroll_relative(2);
    let before = shown(&app);
    let marked = app.picker().highlight_key().cloned();
    assert_eq!(marked, Some("b".to_string()));
    app.refresh(Some(r#"{"a":1,"b":"#), 7000);
    assert_eq!(shown(&app), before);
    assert_eq!(app.selected(), Some(2));
    assert_eq!(app.picker().highlight_key().cloned(), marked);
    app.refresh(None, 8000);
    assert_eq!(shown(&app), before);
    assert_eq!(app.selected(), Some(2));
    assert_eq!(app.store().row_count(), 3);
}

#[test]
fn refresh_brings_the_selection_back_into_a_shorter_table() {
    let mut app = started(r#"{"a":1,"b":2,"c":3,"d":4}"#);
    app.scroll_relative(3);
    assert_eq!(app.selected(), Some(3));
    app.refresh(Some(r#"{"a":1,"b":2,"c":3,"d":4,"e":5}"#), 10);
    assert_eq!(app.selected(), Some(3));
    app.refresh(Some(r#"{"a":1,"b":2}"#), 20);
    assert_eq!(app.selected(), Some(1));
    app.refresh(Some("{}"), 30);
    assert_eq!(app.selected(), None);
}

#[test]
fn step_handles_keys_and_reloads() {
    let mut app = started(r#"{"a":1,"b":2,"c":3}"#);
    assert_eq!(app.step(Event::Key { key: Key::Char('j'), terminal_height: 10 }), Action::Continue);
    assert_eq!(app.selected(), Some(1));
    assert_eq!(app.step(Event::Key { key: Key::Char('3'), terminal_height: 10 }), Action::SwitchPane);
    assert_eq!(
        app.step(Event::Reload { contents: Some(r#"{"a":1,"b":2,"c":4}"#), now: 5000 }),
        Action::Continue
    );
    assert!(app.store().is_changed("c"));
    assert_eq!(app.picker().highlight_key(), Some(&"c".to_string()));
    assert_eq!(app.step(Event::Reload { contents: None, now: 5100 }), Action::Continue);
    assert!(app.store().is_changed("c"));
    assert_eq!(app.step(Event::Key { key: Key::Char('q'), terminal_height: 10 }), Action::Quit);
}

#[test]
fn rows_show_the_current_table() {
    let mut app = started(r#"{"name":"old"}"#);
    assert_eq!(shown(&app), vec![("name".to_string(), vec!["old".to_string()], false)]);
    app.refresh(Some(r#"{"name":"new","more":true}"#), 1);
    assert_eq!(
        shown(&app),
        vec![
            ("name".to_string(), vec!["new".to_string()], true),
            ("more".to_string(), vec!["true".to_string()], true),
        ]
    );
}

#[test]
fn a_second_reload_of_the_same_contents_changes_nothing() {
    let mut app = started(r#"{"a":1,"b":2,"c":3}"#);
    app.scroll_relative(2);
    app.refresh(Some(r#"{"a":5,"b":2}"#), 5000);
    let rows = shown(&app);
    let selected = app.selected();
    let marked = app.picker().highlight_key().cloned();
    assert_eq!(selected, Some(1));
    assert_eq!(marked, Some("a".to_string()));
    app.refresh(Some(r#"{"a":5,"b":2}"#), 5001);
    app.refresh(Some(r#"{"a":5,"b":2}"#), 9999);
    assert_eq!(shown(&app), rows);
    assert_eq!(app.selected(), selected);
    assert_eq!(app.picker().highlight_key().cloned(), marked);
    assert_eq!(app.picker().last_hop_time(), 5000);
}

#[test]
fn failed_refresh_before_the_hop_is_due_changes_nothing() {
    let mut app = started(r#"{"a":1,"b":2,"c":3}"#);
    app.refresh(Some(r#"{"a":1,"b":20,"c":3}"#), 5000);
    app.scroll_relative(1);
    let rows = shown(&app);
    app.refresh(Some("[1, 2"), 9999);
    app.refresh(None, 9999);
    assert_eq!(shown(&app), rows);
    assert_eq!(app.selected(), Some(1));
    assert_eq!(app.picker().highlight_key(), Some(&"b".to_string()));
    assert_eq!(app.picker().last_hop_time(), 5000);
    assert_eq!(app.marker(), DEFAULT_MARKER);
    assert_eq!(app.store().row_count(), 3);
}
