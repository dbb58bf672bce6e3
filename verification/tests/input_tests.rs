use ralph::input::{Command, InputRouter, RouteResult};
use ralph::keys::{KeyCode, KeyEvent};

#[test]
fn normal_mode_forwards_regular_keys() {
    let mut router = InputRouter::new();
    let key = KeyEvent::plain(KeyCode::Char('x'));
    assert_eq!(router.route_key(key), RouteResult::Forward(key));
}

#[test]
fn ctrl_a_switches_to_awaiting_command() {
    let mut router = InputRouter::new();
    let key = KeyEvent::new(KeyCode::Char('a'), true, false);
    assert_eq!(router.route_key(key), RouteResult::Consumed);
}

#[test]
fn next_key_after_ctrl_a_returns_command() {
    let mut router = InputRouter::new();
    let prefix = KeyEvent::new(KeyCode::Char('a'), true, false);
    router.route_key(prefix);

    let cmd = KeyEvent::plain(KeyCode::Char('q'));
    assert_eq!(router.route_key(cmd), RouteResult::Command(Command::Quit));
}

#[test]
fn state_resets_to_normal_after_command() {
    let mut router = InputRouter::new();
    let prefix = KeyEvent::new(KeyCode::Char('a'), true, false);
    router.route_key(prefix);

    let cmd = KeyEvent::plain(KeyCode::Char('q'));
    router.route_key(cmd);

    let next = KeyEvent::plain(KeyCode::Char('x'));
    assert_eq!(router.route_key(next), RouteResult::Forward(next));
}

#[test]
fn quit_command_returns_q() {
    let mut router = InputRouter::new();
    let prefix = KeyEvent::new(KeyCode::Char('a'), true, false);
    router.route_key(prefix);

    let cmd = KeyEvent::plain(KeyCode::Char('q'));
    assert_eq!(router.route_key(cmd), RouteResult::Command(Command::Quit));
}

#[test]
fn help_command_returns_question_mark() {
    let mut router = InputRouter::new();
    let prefix = KeyEvent::new(KeyCode::Char('a'), true, false);
    router.route_key(prefix);

    let cmd = KeyEvent::new(KeyCode::Char('?'), false, true);
    assert_eq!(router.route_key(cmd), RouteResult::Command(Command::Help));
}

#[test]
fn unknown_command_returns_unknown() {
    let mut router = InputRouter::new();
    let prefix = KeyEvent::new(KeyCode::Char('a'), true, false);
    router.route_key(prefix);

    let cmd = KeyEvent::plain(KeyCode::Char('x'));
    assert_eq!(router.route_key(cmd), RouteResult::Command(Command::Unknown));
}

#[test]
fn pause_command_returns_p() {
    let mut router = InputRouter::new();
    let prefix = KeyEvent::new(KeyCode::Char('a'), true, false);
    router.route_key(prefix);

    let cmd = KeyEvent::plain(KeyCode::Char('p'));
    assert_eq!(router.route_key(cmd), RouteResult::Command(Command::Pause));
}

#[test]
fn non_character_key_in_command_mode_is_consumed() {
    let mut router = InputRouter::new();
    let prefix = KeyEvent::new(KeyCode::Char('a'), true, false);
    router.route_key(prefix);

    let cmd = KeyEvent::plain(KeyCode::Enter);
    assert_eq!(router.route_key(cmd), RouteResult::Consumed);
}
