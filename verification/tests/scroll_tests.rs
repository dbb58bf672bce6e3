use ralph::keys::{KeyCode, KeyEvent};
use ralph::scroll::ScrollManager;

#[test]
fn new_scroll_manager_starts_at_bottom() {
    let sm = ScrollManager::new();
    assert_eq!(sm.offset(), 0);
}

#[test]
fn scroll_up_increases_offset() {
    let mut sm = ScrollManager::new();
    sm.update_dimensions(100, 24);
    sm.handle_key(KeyEvent::plain(KeyCode::Char('k')));
    assert_eq!(sm.offset(), 1);
}

#[test]
fn scroll_down_decreases_offset() {
    let mut sm = ScrollManager::new();
    sm.update_dimensions(100, 24);
    sm.offset = 10;
    sm.handle_key(KeyEvent::plain(KeyCode::Char('j')));
    assert_eq!(sm.offset(), 9);
}

#[test]
fn scroll_down_stops_at_zero() {
    let mut sm = ScrollManager::new();
    sm.update_dimensions(100, 24);
    sm.offset = 0;
    sm.handle_key(KeyEvent::plain(KeyCode::Char('j')));
    assert_eq!(sm.offset(), 0);
}

#[test]
fn scroll_up_stops_at_max() {
    let mut sm = ScrollManager::new();
    sm.update_dimensions(100, 24);
    for _ in 0..200 {
        sm.handle_key(KeyEvent::plain(KeyCode::Char('k')));
    }
    assert_eq!(sm.offset(), 76);
}

#[test]
fn page_down_scrolls_viewport_height() {
    let mut sm = ScrollManager::new();
    sm.update_dimensions(100, 24);
    sm.offset = 50;
    sm.handle_key(KeyEvent::plain(KeyCode::PageDown));
    assert_eq!(sm.offset(), 26);
}

#[test]
fn page_up_scrolls_viewport_height() {
    let mut sm = ScrollManager::new();
    sm.update_dimensions(100, 24);
    sm.offset = 10;
    sm.handle_key(KeyEvent::plain(KeyCode::PageUp));
    assert_eq!(sm.offset(), 34);
}

#[test]
fn g_jumps_to_top() {
    let mut sm = ScrollManager::new();
    sm.update_dimensions(100, 24);
    sm.handle_key(KeyEvent::plain(KeyCode::Char('g')));
    assert_eq!(sm.offset(), 76);
}

#[test]
fn capital_g_jumps_to_bottom() {
    let mut sm = ScrollManager::new();
    sm.update_dimensions(100, 24);
    sm.offset = 50;
    sm.handle_key(KeyEvent::plain(KeyCode::Char('G')));
    assert_eq!(sm.offset(), 0);
}

#[test]
fn reset_returns_to_bottom() {
    let mut sm = ScrollManager::new();
    sm.update_dimensions(100, 24);
    sm.offset = 50;
    sm.reset();
    assert_eq!(sm.offset(), 0);
}

#[test]
fn arrow_keys_work_like_jk() {
    let mut sm = ScrollManager::new();
    sm.update_dimensions(100, 24);
    sm.handle_key(KeyEvent::plain(KeyCode::Up));
    assert_eq!(sm.offset(), 1);
    sm.handle_key(KeyEvent::plain(KeyCode::Down));
    assert_eq!(sm.offset(), 0);
}

#[test]
fn update_dimensions_clamps_offset() {
    let mut sm = ScrollManager::new();
    sm.update_dimensions(100, 24);
    sm.offset = 76;
    sm.update_dimensions(30, 24);
    assert_eq!(sm.offset(), 6);
}
