use jsonwatch::scroll::line_step;
use jsonwatch::scroll::page_height;
use jsonwatch::scroll::ScrollState;

#[test]
fn page_height_is_one_row_less_than_the_terminal() {
    assert_eq!(page_height(24), 23);
    assert_eq!(page_height(1), 0);
    assert_eq!(page_height(0), 0);
    assert_eq!(page_height(u16::MAX), 65534);
}

#[test]
fn line_step_is_a_tenth_of_the_height_rounded() {
    assert_eq!(line_step(0), 0);
    assert_eq!(line_step(4), 0);
    assert_eq!(line_step(5), 1);
    assert_eq!(line_step(10), 1);
    assert_eq!(line_step(14), 1);
    assert_eq!(line_step(15), 2);
    assert_eq!(line_step(24), 2);
    assert_eq!(line_step(26), 3);
    assert_eq!(line_step(40), 4);
    assert_eq!(line_step(u16::MAX), 6554);
}

#[test]
fn new_cursor_has_no_selection() {
    assert_eq!(ScrollState::new().selected(), None);
}

#[test]
fn move_starts_at_the_first_row() {
    let mut state = ScrollState::new();
    state.move_by(0, 5);
    assert_eq!(state.selected(), Some(0));
    let mut state = ScrollState::new();
    state.move_by(2, 5);
    assert_eq!(state.selected(), Some(2));
}

#[test]
fn move_stops_at_the_last_row() {
    let mut state = ScrollState::new();
    state.move_by(3, 5);
    state.move_by(3, 5);
    assert_eq!(state.selected(), Some(4));
    state.move_by(i64::MAX, 5);
    assert_eq!(state.selected(), Some(4));
}

#[test]
fn move_stops_at_the_first_row() {
    let mut state = ScrollState::new();
    state.move_by(2, 5);
    state.move_by(-1, 5);
    assert_eq!(state.selected(), Some(1));
    state.move_by(-7, 5);
    assert_eq!(state.selected(), Some(0));
    state.move_by(i64::MIN, 5);
    assert_eq!(state.selected(), Some(0));
}

#[test]
fn move_on_an_empty_table_leaves_the_selection_unset() {
    let mut state = ScrollState::new();
    state.move_by(3, 0);
    assert_eq!(state.selected(), None);
    state.move_by(-3, 0);
    assert_eq!(state.selected(), None);
}

#[test]
fn move_never_leaves_the_table() {
    for rows in 1..6usize {
        for start in 0..rows {
            for delta in -8..9i64 {
                let mut state = ScrollState::new();
                state.move_by(start as i64, rows);
                state.move_by(delta, rows);
                let selected = state.selected().unwrap();
                assert!(selected < rows);
                let wanted = (start as i64 + delta).clamp(0, rows as i64 - 1);
                assert_eq!(selected as i64, wanted);
            }
        }
    }
}

#[test]
fn reclamp_keeps_a_selection_that_fits() {
    let mut state = ScrollState::new();
    state.move_by(3, 10);
    state.reclamp(10);
    assert_eq!(state.selected(), Some(3));
    state.reclamp(4);
    assert_eq!(state.selected(), Some(3));
}

#[test]
fn reclamp_brings_the_selection_back_into_a_shorter_table() {
    let mut state = ScrollState::new();
    state.move_by(8, 10);
    state.reclamp(5);
    assert_eq!(state.selected(), Some(4));
    state.reclamp(0);
    assert_eq!(state.selected(), None);
}

#[test]
fn reclamp_leaves_no_selection_unset() {
    let mut state = ScrollState::new();
    state.reclamp(7);
    assert_eq!(state.selected(), None);
}
