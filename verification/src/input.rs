//! Input routing for TUI prefix commands: Ctrl+A arms command mode, and
//! the next key selects a command.

use vstd::prelude::*;
use crate::keys::{KeyCode, KeyEvent};

verus! {

/// Input routing mode.
#[derive(Debug, Clone, Copy, PartialEq, Eq, Structural)]
pub enum InputMode {
    Normal,
    AwaitingCommand,
}

/// Prefix commands.
#[derive(Debug, Clone, Copy, PartialEq, Eq, Structural)]
pub enum Command {
    Quit,
    Help,
    Pause,
    Unknown,
}

/// Result of routing a key event.
#[derive(Debug, Clone, Copy, PartialEq, Eq, Structural)]
pub enum RouteResult {
    Forward(KeyEvent),
    Command(Command),
    Consumed,
}

/// The prefix key that arms command mode: Ctrl+A.
pub open spec fn is_prefix(key: KeyEvent) -> bool {
    key.code == KeyCode::Char('a') && key.ctrl
}

/// The command selected by a character.
pub open spec fn command_of(c: char) -> Command {
    if c == 'q' {
        Command::Quit
    } else if c == '?' {
        Command::Help
    } else if c == 'p' {
        Command::Pause
    } else {
        Command::Unknown
    }
}

/// One routing step: in normal mode the prefix is consumed and arms
/// command mode while everything else is forwarded; in command mode the
/// next character selects a command and the mode resets.
pub open spec fn spec_route(mode: InputMode, key: KeyEvent) -> (InputMode, RouteResult) {
    match mode {
        InputMode::Normal => {
            if is_prefix(key) {
                (InputMode::AwaitingCommand, RouteResult::Consumed)
            } else {
                (InputMode::Normal, RouteResult::Forward(key))
            }
        },
        InputMode::AwaitingCommand => {
            match key.code {
                KeyCode::Char(c) => (InputMode::Normal, RouteResult::Command(command_of(c))),
                _ => (InputMode::Normal, RouteResult::Consumed),
            }
        },
    }
}

/// Routes input between normal mode and command mode.
#[derive(Debug)]
pub struct InputRouter {
    pub mode: InputMode,
}

impl InputRouter {
    /// A router in normal mode.
    pub fn new() -> (r: InputRouter)
        ensures
            r.mode == InputMode::Normal,
    {
        InputRouter { mode: InputMode::Normal }
    }

    /// Routes a key event based on the current mode.
    pub fn route_key(&mut self, key: KeyEvent) -> (r: RouteResult)
        ensures
            (final(self).mode, r) == spec_route(old(self).mode, key),
    {
        match self.mode {
            InputMode::Normal => {
                if key.ctrl && key.code == KeyCode::Char('a') {
                    self.mode = InputMode::AwaitingCommand;
                    RouteResult::Consumed
                } else {
                    RouteResult::Forward(key)
                }
            },
            InputMode::AwaitingCommand => {
                self.mode = InputMode::Normal;
                match key.code {
                    KeyCode::Char(c) => RouteResult::Command(
                        if c == 'q' {
                            Command::Quit
                        } else if c == '?' {
                            Command::Help
                        } else if c == 'p' {
                            Command::Pause
                        } else {
                            Command::Unknown
                        },
                    ),
                    _ => RouteResult::Consumed,
                }
            },
        }
    }
}

} // verus!
