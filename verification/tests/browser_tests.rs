use scooby::browser::{key_to_command, BrowserState, Command, Key, ModeFocus, NavEvent};
use scooby::project::DisplayRow;

fn row(id: i64, key: &str, payload: Option<&str>, response: Option<&str>) -> DisplayRow {
    DisplayRow {
        id,
        key: key.to_string(),
        payload: payload.map(|p| p.to_string()),
        response: response.map(|p| p.to_string()),
    }
}

fn three_rows() -> Vec<DisplayRow> {
    vec![
        row(1, "[1] GET a u1", Some("{\"a\":1}"), Some("{\"ok\":true}")),
        row(2, "[2] GET b u2", None, Some("[1,2]")),
        row(3, "[3] GET c u3", Some("{oops"), None),
    ]
}

#[test]
fn initial_state_is_grid_list() {
    let s = BrowserState::new(three_rows());
    assert_eq!(s.mode(), ModeFocus::Grid);
    assert_eq!(s.selected(), 0);
    assert_eq!(s.payload_scroll(), 0);
    assert_eq!(s.response_scroll(), 0);
    assert_eq!(s.row_count(), 3);
    assert_eq!(s.labels().len(), 3);
    assert_eq!(s.labels()[1], "[2] GET b u2");
}

#[test]
fn next_wraps_after_three() {
    // Scenario: three records, selection starts at 0; three presses of
    // next bring it back to 0.
    let mut s = BrowserState::new(three_rows());
    s.next();
    assert_eq!(s.selected(), 1);
    s.next();
    assert_eq!(s.selected(), 2);
    s.next();
    assert_eq!(s.selected(), 0);
}

#[test]
fn previous_wraps_at_zero() {
    let mut s = BrowserState::new(three_rows());
    s.previous();
    assert_eq!(s.selected(), 2);
    s.previous();
    assert_eq!(s.selected(), 1);
}

#[test]
fn next_and_previous_are_inverses() {
    let mut s = BrowserState::new(three_rows());
    s.next();
    s.previous();
    assert_eq!(s.selected(), 0);
    s.previous();
    s.next();
    assert_eq!(s.selected(), 0);
}

#[test]
fn navigation_ignored_in_fullscreen() {
    let mut s = BrowserState::new(three_rows());
    s.toggle_fullscreen();
    s.next();
    assert_eq!(s.selected(), 0);
    s.previous();
    assert_eq!(s.selected(), 0);
}

#[test]
fn empty_store_panes_show_placeholder_and_keys_are_noops() {
    // Scenario: an empty store. Every content pane shows the fixed
    // placeholder, and navigation or scroll keys change nothing.
    let mut s = BrowserState::new(Vec::new());
    assert_eq!(s.payload_pane(), "No requests");
    assert_eq!(s.response_pane(), "No requests");
    s.next();
    s.previous();
    s.scroll_up();
    s.scroll_down();
    assert_eq!(s.selected(), 0);
    assert_eq!(s.mode(), ModeFocus::Grid);
    assert_eq!(s.payload_scroll(), 0);
    assert_eq!(s.response_scroll(), 0);
    assert_eq!(s.payload_pane(), "No requests");
    assert_eq!(s.response_pane(), "No requests");
}

#[test]
fn empty_store_scrolling_is_noop_even_in_fullscreen() {
    // Scenario: an empty store. Scroll keys change nothing in any mode, so
    // the placeholder can never be scrolled out of view.
    let mut s = BrowserState::new(Vec::new());
    s.toggle_fullscreen();
    s.scroll_down();
    s.scroll_down();
    assert_eq!(s.payload_scroll(), 0);
    s.focus_next();
    s.scroll_down();
    s.scroll_up();
    assert_eq!(s.response_scroll(), 0);
    assert_eq!(s.payload_scroll(), 0);
    assert_eq!(s.payload_pane(), "No requests");
    assert_eq!(s.response_pane(), "No requests");
}

#[test]
fn fullscreen_focus_and_scrolling() {
    // Scenario: enter fullscreen (focus lands on the payload pane), cycle
    // the focus to the response pane, scroll down five times, then scroll
    // up ten times: the offset clamps back to zero.
    let mut s = BrowserState::new(three_rows());
    s.toggle_fullscreen();
    assert_eq!(s.mode(), ModeFocus::FullscreenPayload);
    s.focus_next();
    assert_eq!(s.mode(), ModeFocus::FullscreenResponse);
    for _ in 0..5 {
        s.scroll_down();
    }
    assert_eq!(s.response_scroll(), 5);
    for _ in 0..10 {
        s.scroll_up();
    }
    assert_eq!(s.response_scroll(), 0);
    assert_eq!(s.payload_scroll(), 0);
}

#[test]
fn toggle_twice_restores_mode_and_selection() {
    let mut s = BrowserState::new(three_rows());
    s.next();
    s.toggle_fullscreen();
    s.toggle_fullscreen();
    assert_eq!(s.mode(), ModeFocus::Grid);
    assert_eq!(s.selected(), 1);
    s.toggle_fullscreen();
    s.focus_next();
    s.toggle_fullscreen();
    assert_eq!(s.mode(), ModeFocus::Grid);
    assert_eq!(s.selected(), 1);
}

#[test]
fn focus_cycle_is_noop_in_grid_and_alternates_in_fullscreen() {
    let mut s = BrowserState::new(three_rows());
    s.focus_next();
    assert_eq!(s.mode(), ModeFocus::Grid);
    s.toggle_fullscreen();
    s.focus_next();
    assert_eq!(s.mode(), ModeFocus::FullscreenResponse);
    s.focus_next();
    assert_eq!(s.mode(), ModeFocus::FullscreenPayload);
    s.focus_next();
    assert_eq!(s.mode(), ModeFocus::FullscreenResponse);
}

#[test]
fn scroll_ignored_in_grid_mode() {
    let mut s = BrowserState::new(three_rows());
    s.scroll_down();
    s.scroll_down();
    assert_eq!(s.payload_scroll(), 0);
    assert_eq!(s.response_scroll(), 0);
}

#[test]
fn payload_pane_pretty_prints_valid_json() {
    let mut s = BrowserState::new(three_rows());
    assert_eq!(s.payload_pane(), "{\n  \"a\": 1\n}");
    assert_eq!(s.response_pane(), "{\n  \"ok\": true\n}");
    s.next();
    assert_eq!(s.payload_pane(), "<no content>");
    assert_eq!(s.response_pane(), "[\n  1,\n  2\n]");
}

#[test]
fn panes_degrade_per_field_on_bad_json() {
    let mut s = BrowserState::new(three_rows());
    s.next();
    s.next();
    assert_eq!(s.payload_pane(), "<invalid json>");
    assert_eq!(s.response_pane(), "<no response>");
}

#[test]
fn key_bindings_decode_as_fixed() {
    assert_eq!(key_to_command(Key::Char('q')), Command::Quit);
    assert_eq!(key_to_command(Key::Char('j')), Command::Nav(NavEvent::Next));
    assert_eq!(key_to_command(Key::Char('k')), Command::Nav(NavEvent::Previous));
    assert_eq!(key_to_command(Key::Enter), Command::Nav(NavEvent::ToggleFullscreen));
    assert_eq!(key_to_command(Key::Tab), Command::Nav(NavEvent::FocusCycle));
    assert_eq!(key_to_command(Key::CtrlChar('u')), Command::Nav(NavEvent::ScrollUp));
    assert_eq!(key_to_command(Key::CtrlChar('d')), Command::Nav(NavEvent::ScrollDown));
    assert_eq!(key_to_command(Key::Char('x')), Command::Ignore);
    assert_eq!(key_to_command(Key::CtrlChar('q')), Command::Ignore);
    assert_eq!(key_to_command(Key::Other), Command::Ignore);
}

#[test]
fn apply_dispatches_events() {
    let mut s = BrowserState::new(three_rows());
    s.apply(NavEvent::Next);
    assert_eq!(s.selected(), 1);
    s.apply(NavEvent::ToggleFullscreen);
    s.apply(NavEvent::FocusCycle);
    s.apply(NavEvent::ScrollDown);
    assert_eq!(s.mode(), ModeFocus::FullscreenResponse);
    assert_eq!(s.response_scroll(), 1);
}
