//! The pseudo-terminal execution layer's control plane: configuration,
//! the double-interrupt state machine, idle-timeout arithmetic, and the
//! post-processing of a finished run's raw output.
//!
//! Spawning the child, pumping bytes, and sending signals are I/O and live
//! outside the library; everything here is the decision logic they rely on.

use vstd::prelude::*;
use crate::text::{parse_u16, spec_parse_u16};

verus! {

/// How a PTY child process was terminated.
#[derive(Debug, Clone, PartialEq, Eq, Structural)]
pub enum TerminationType {
    /// Process exited naturally.
    Natural,
    /// Terminated due to idle timeout.
    IdleTimeout,
    /// Terminated by the user (double Ctrl+C).
    UserInterrupt,
    /// Force killed by the user (Ctrl+backslash).
    ForceKill,
}

/// Result of one PTY execution.
#[derive(Debug)]
pub struct PtyExecutionResult {
    /// The accumulated output (ANSI sequences preserved).
    pub output: String,
    /// The ANSI-stripped output for event parsing.
    pub stripped_output: String,
    /// Whether the process exited successfully.
    pub success: bool,
    /// The exit code if available.
    pub exit_code: Option<i32>,
    /// How the process was terminated.
    pub termination: TerminationType,
}

/// Configuration for PTY execution.
#[derive(Debug, Clone)]
pub struct PtyConfig {
    /// Enable interactive mode (forward user input).
    pub interactive: bool,
    /// Idle timeout in seconds (0 disables the timeout).
    pub idle_timeout_secs: u32,
    /// Terminal width.
    pub cols: u16,
    /// Terminal height.
    pub rows: u16,
}

impl Default for PtyConfig {
    /// Interactive, 30 s idle timeout, 80x24.
    fn default() -> (c: PtyConfig)
        ensures
            c.interactive == true,
            c.idle_timeout_secs == 30,
            c.cols == 80,
            c.rows == 24,
    {
        PtyConfig { interactive: true, idle_timeout_secs: 30, cols: 80, rows: 24 }
    }
}

/// Action to take after a Ctrl+C press.
#[derive(Debug, Clone, PartialEq, Eq, Structural)]
pub enum CtrlCAction {
    /// Forward the Ctrl+C to the child and start (or restart) the window.
    ForwardAndStartWindow,
    /// Terminate the child (second Ctrl+C within the window).
    Terminate,
}

/// The time passed since the stored press, saturating at zero when the
/// clock reads earlier than the press.
pub open spec fn spec_elapsed(first: int, now_ms: int) -> int {
    if now_ms >= first {
        now_ms - first
    } else {
        0
    }
}

/// One step of the double-Ctrl+C state machine: a second press within the
/// window terminates and clears the stored press; anything else forwards
/// the press and restarts the window at `now_ms`.
pub open spec fn spec_ctrl_c_step(first_press: Option<int>, window_ms: int, now_ms: int) -> (
    Option<int>,
    CtrlCAction,
) {
    match first_press {
        Some(first) => {
            if spec_elapsed(first, now_ms) < window_ms {
                (None, CtrlCAction::Terminate)
            } else {
                (Some(now_ms), CtrlCAction::ForwardAndStartWindow)
            }
        },
        None => (Some(now_ms), CtrlCAction::ForwardAndStartWindow),
    }
}

/// State machine for double Ctrl+C detection.
#[derive(Debug)]
pub struct CtrlCState {
    /// When the first Ctrl+C was pressed, in milliseconds, if any.
    pub first_press: Option<u64>,
    /// Window length for double-press detection, in milliseconds.
    pub window_ms: u64,
}

/// The stored press as a mathematical value.
pub open spec fn press_view(p: Option<u64>) -> Option<int> {
    match p {
        Some(t) => Some(t as int),
        None => None,
    }
}

impl CtrlCState {
    /// Creates a fresh tracker with no press recorded and a one second
    /// window.
    pub fn new() -> (s: CtrlCState)
        ensures
            s.first_press.is_none(),
            s.window_ms == 1000,
    {
        CtrlCState { first_press: None, window_ms: 1000 }
    }

    /// Handles a Ctrl+C press at `now_ms` and returns the action to take.
    pub fn handle_ctrl_c(&mut self, now_ms: u64) -> (action: CtrlCAction)
        ensures
            final(self).window_ms == old(self).window_ms,
            (press_view(final(self).first_press), action) == spec_ctrl_c_step(
                press_view(old(self).first_press),
                old(self).window_ms as int,
                now_ms as int,
            ),
    {
        match self.first_press {
            Some(first) => {
                let elapsed = if now_ms >= first {
                    now_ms - first
                } else {
                    0
                };
                if elapsed < self.window_ms {
                    self.first_press = None;
                    CtrlCAction::Terminate
                } else {
                    self.first_press = Some(now_ms);
                    CtrlCAction::ForwardAndStartWindow
                }
            },
            None => {
                self.first_press = Some(now_ms);
                CtrlCAction::ForwardAndStartWindow
            },
        }
    }
}

/// Two presses within one window: the first forwards and arms the window,
/// the second terminates and clears it.
pub proof fn lemma_double_press_within_window(window_ms: int, t0: int, t1: int)
    requires
        0 <= t0 <= t1,
        t1 - t0 < window_ms,
    ensures
        ({
            let (s1, a1) = spec_ctrl_c_step(None, window_ms, t0);
            let (s2, a2) = spec_ctrl_c_step(s1, window_ms, t1);
            a1 == CtrlCAction::ForwardAndStartWindow && a2 == CtrlCAction::Terminate
                && s2.is_none()
        }),
{
}

/// Two presses at least one window apart both forward.
pub proof fn lemma_presses_apart_both_forward(window_ms: int, t0: int, t1: int)
    requires
        0 <= t0 <= t1,
        t1 - t0 >= window_ms,
    ensures
        ({
            let (s1, a1) = spec_ctrl_c_step(None, window_ms, t0);
            let (s2, a2) = spec_ctrl_c_step(s1, window_ms, t1);
            a1 == CtrlCAction::ForwardAndStartWindow && a2
                == CtrlCAction::ForwardAndStartWindow && s2 == Some(t1)
        }),
{
}

/// Whether the idle timeout has expired: a timeout of 0 disables it, and
/// otherwise more than `idle_timeout_secs` seconds must have passed since
/// the last activity.
pub fn idle_expired(idle_timeout_secs: u32, last_activity_ms: u64, now_ms: u64) -> (r: bool)
    ensures
        r == (idle_timeout_secs > 0 && now_ms - last_activity_ms > idle_timeout_secs
            * 1000),
        idle_timeout_secs == 0 ==> r == false,
{
    if idle_timeout_secs == 0 {
        false
    } else {
        let timeout_ms: u64 = (idle_timeout_secs as u64) * 1000;
        now_ms > last_activity_ms && now_ms - last_activity_ms > timeout_ms
    }
}

/// Whether the five second grace period that follows a SIGTERM has run
/// out, so the child must now be killed outright; the clock saturates
/// like the press window does.
pub fn grace_expired(started_ms: u64, now_ms: u64) -> (r: bool)
    ensures
        r == (spec_elapsed(started_ms as int, now_ms as int) >= 5000),
{
    now_ms >= started_ms && now_ms - started_ms >= 5000
}

/// The terminal dimension an environment value selects: the number the
/// text holds when it parses as a decimal `u16`, the default otherwise.
pub fn dimension_or_default(value: &str, default: u16) -> (r: u16)
    ensures
        r == (match spec_parse_u16(value@) {
            Some(v) => v,
            None => default,
        }),
{
    match parse_u16(value) {
        Some(v) => v,
        None => default,
    }
}

/// A backend adapter's recipe for one agent CLI: the program, its fixed
/// arguments, and whether the prompt goes to the child's stdin rather
/// than the argument list.
#[derive(Debug, Clone)]
pub struct CliBackend {
    pub program: String,
    pub args: Vec<String>,
    pub prompt_via_stdin: bool,
}

fn clone_string_vec(v: &Vec<String>) -> (r: Vec<String>)
    ensures
        r@ == v@,
{
    let mut r: Vec<String> = Vec::new();
    let mut i: usize = 0;
    while i < v.len()
        invariant
            0 <= i <= v@.len(),
            r@ =~= v@.subrange(0, i as int),
        decreases v@.len() - i,
    {
        r.push(v[i].clone());
        assert(r@ =~= v@.subrange(0, i + 1));
        i += 1;
    }
    assert(r@ =~= v@);
    r
}

impl CliBackend {
    /// Builds the command for one invocation: the program, the argument
    /// list (with the prompt appended when it does not go to stdin), and
    /// the optional stdin payload.
    pub fn build_command(&self, prompt: String) -> (r: (String, Vec<String>, Option<String>))
        ensures
            r.0@ == self.program@,
            self.prompt_via_stdin ==> r.1@ == self.args@ && r.2 == Some(prompt),
            !self.prompt_via_stdin ==> r.1@ == self.args@.push(prompt) && r.2
                == None::<String>,
    {
        let program = self.program.clone();
        let mut args = clone_string_vec(&self.args);
        if self.prompt_via_stdin {
            (program, args, Some(prompt))
        } else {
            args.push(prompt);
            (program, args, None)
        }
    }
}

/// Executor for running prompts in a pseudo-terminal: the backend recipe
/// plus the PTY configuration. The I/O loops that drive it live outside
/// the library and call back into [`finish_execution`].
#[derive(Debug)]
pub struct PtyExecutor {
    pub backend: CliBackend,
    pub config: PtyConfig,
}

impl PtyExecutor {
    /// Creates a new PTY executor with the given backend and
    /// configuration.
    pub fn new(backend: CliBackend, config: PtyConfig) -> (e: PtyExecutor)
        ensures
            e.backend == backend,
            e.config == config,
    {
        PtyExecutor { backend, config }
    }
}

/// The final screen contents after feeding the bytes through a
/// VT100-compatible terminal emulator, 24x80, no scrollback; a function of
/// the bytes alone.
pub uninterp spec fn vt_screen_of(bytes: Seq<u8>) -> Seq<char>;

/// What `String::from_utf8_lossy` makes of the bytes; a function of the
/// bytes alone.
pub uninterp spec fn utf8_lossy_of(bytes: Seq<u8>) -> Seq<char>;

/// Relies on vt100 0.16: `Parser::new(24, 80, 0)`, `Parser::process`, and
/// `Screen::contents`, which returns the final screen contents as plain
/// text; the result depends on the bytes alone.
#[verifier::external_body]
fn strip_ansi(bytes: &[u8]) -> (r: String)
    ensures
        r@ == vt_screen_of(bytes@),
{
    let mut parser = vt100::Parser::new(24, 80, 0);
    parser.process(bytes);
    parser.screen().contents()
}

/// Relies on `String::from_utf8_lossy`: decodes the bytes as UTF-8,
/// replacing invalid sequences with U+FFFD; the result depends on the
/// bytes alone.
#[verifier::external_body]
fn bytes_to_string_lossy(bytes: &[u8]) -> (r: String)
    ensures
        r@ == utf8_lossy_of(bytes@),
{
    String::from_utf8_lossy(bytes).to_string()
}

/// Packages the raw bytes a finished PTY run produced: the output decoded
/// losslessly where valid, the ANSI-stripped screen contents for event
/// parsing, and the run's exit facts, carried through unchanged.
pub fn finish_execution(
    output: &[u8],
    success: bool,
    exit_code: Option<i32>,
    termination: TerminationType,
) -> (r: PtyExecutionResult)
    ensures
        r.output@ == utf8_lossy_of(output@),
        r.stripped_output@ == vt_screen_of(output@),
        r.success == success,
        r.exit_code == exit_code,
        r.termination == termination,
{
    PtyExecutionResult {
        output: bytes_to_string_lossy(output),
        stripped_output: strip_ansi(output),
        success,
        exit_code,
        termination,
    }
}

} // verus!
