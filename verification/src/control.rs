//! The decisions of the running clock: what a key press or a click does,
//! what the command line asks for, and when the screen must be redrawn.

use vstd::prelude::*;

use crate::alert::{after_dismiss, AlertState, AlertView};
use crate::text::{chars_of, push_str};

verus! {

/// Milliseconds between two looks at the clock.
pub const TICK_MS: u64 = 200;

/// Milliseconds to wait for input at a time within a tick.
pub const INPUT_POLL_MS: u64 = 25;


/// A key, as far as the clock tells keys apart.
#[derive(Clone, Copy, Debug, PartialEq, Eq, Structural)]
pub enum KeyInput {
    Esc,
    Char(char),
    Other,
}

/// A terminal input event, as far as the clock tells them apart.
#[derive(Clone, Copy, Debug, PartialEq, Eq, Structural)]
pub enum InputEvent {
    /// A key press, with whether Control was held.
    Key { code: KeyInput, control: bool },
    /// Any mouse event.
    Mouse,
    /// Anything else (resize, focus, paste).
    Other,
}

/// What the clock does after an input event.
#[derive(Clone, Copy, Debug, PartialEq, Eq, Structural)]
pub enum InputAction {
    /// Nothing to do.
    Ignored,
    /// The alert was dismissed; redraw.
    Dismissed,
    /// Quit.
    Quit,
}

/// What an input event does to the alert state: Esc dismisses a shown
/// alert and otherwise quits; `q` and Control-C quit; a mouse event
/// dismisses a shown alert; anything else does nothing.
pub open spec fn input_outcome(event: InputEvent, v: AlertView) -> (InputAction, AlertView) {
    match event {
        InputEvent::Key { code, control } => match code {
            KeyInput::Esc => if v.active is Some {
                (InputAction::Dismissed, after_dismiss(v))
            } else {
                (InputAction::Quit, after_dismiss(v))
            },
            KeyInput::Char(c) => if c == 'q' || (c == 'c' && control) {
                (InputAction::Quit, v)
            } else {
                (InputAction::Ignored, v)
            },
            KeyInput::Other => (InputAction::Ignored, v),
        },
        InputEvent::Mouse => if v.active is Some {
            (InputAction::Dismissed, after_dismiss(v))
        } else {
            (InputAction::Ignored, after_dismiss(v))
        },
        InputEvent::Other => (InputAction::Ignored, v),
    }
}

/// Handles an input event.
pub fn handle_event(event: InputEvent, alert: &mut AlertState) -> (action: InputAction)
    ensures
        (action, final(alert)@) == input_outcome(event, old(alert)@),
{
    match event {
        InputEvent::Key { code, control } => match code {
            KeyInput::Esc => {
                if alert.dismiss() {
                    InputAction::Dismissed
                } else {
                    InputAction::Quit
                }
            },
            KeyInput::Char(c) => {
                if c == 'q' || (c == 'c' && control) {
                    InputAction::Quit
                } else {
                    InputAction::Ignored
                }
            },
            KeyInput::Other => InputAction::Ignored,
        },
        InputEvent::Mouse => {
            if alert.dismiss() {
                InputAction::Dismissed
            } else {
                InputAction::Ignored
            }
        },
        InputEvent::Other => InputAction::Ignored,
    }
}

/// Input law: once a shown alert is dismissed, the same key or click no
/// longer dismisses: Esc then quits and a click does nothing.
pub proof fn second_dismissal_falls_through(event: InputEvent, v: AlertView)
    requires
        v.active is Some,
        event == InputEvent::Mouse || event matches InputEvent::Key { code: KeyInput::Esc, .. },
    ensures
        input_outcome(event, v).0 == InputAction::Dismissed,
        input_outcome(event, input_outcome(event, v).1).0 != InputAction::Dismissed,
{
}

/// What the command line asks for.
#[derive(Clone, Copy, Debug, PartialEq, Eq, Structural)]
pub enum CliRequest {
    /// Print the usage.
    Help,
    /// Print the version.
    Version,
    /// Run the clock.
    Run,
}

/// The request made by the first command-line argument, if any.
pub open spec fn cli_request_for(arg: Option<Seq<char>>) -> CliRequest {
    match arg {
        Some(a) => if a == "-h"@ || a == "--help"@ {
            CliRequest::Help
        } else if a == "-V"@ || a == "--version"@ {
            CliRequest::Version
        } else {
            CliRequest::Run
        },
        None => CliRequest::Run,
    }
}

/// Whether two strings hold the same characters.
fn same_text(a: &str, b: &str) -> (same: bool)
    ensures
        same == (a@ == b@),
{
    let x = chars_of(a);
    let y = chars_of(b);
    if x.len() != y.len() {
        return false;
    }
    let n = x.len();
    for i in 0..n
        invariant
            n == x@.len() == y@.len(),
            x@ == a@,
            y@ == b@,
            forall|k: int| 0 <= k < i ==> x@[k] == y@[k],
    {
        if x[i] != y[i] {
            return false;
        }
    }
    assert(x@ =~= y@);
    true
}

/// The request made by the first command-line argument.
pub fn cli_request(arg: Option<&str>) -> (r: CliRequest)
    ensures
        r == cli_request_for(crate::events::str_view(arg)),
{
    match arg {
        Some(a) => {
            if same_text(a, "-h") || same_text(a, "--help") {
                CliRequest::Help
            } else if same_text(a, "-V") || same_text(a, "--version") {
                CliRequest::Version
            } else {
                CliRequest::Run
            }
        },
        None => CliRequest::Run,
    }
}

/// The key of what is on screen: the time, the calendar key and the alert
/// key, separated by `|`.
pub open spec fn screen_key(time: Seq<char>, calendar_key: Seq<char>, alert_key: Seq<char>) -> Seq<
    char,
> {
    time + "|"@ + calendar_key + "|"@ + alert_key
}

/// The key of what is on screen.
pub fn frame_key(time: &str, calendar_key: &str, alert_key: &str) -> (k: String)
    ensures
        k@ == screen_key(time@, calendar_key@, alert_key@),
{
    let mut k = String::new();
    push_str(&mut k, time);
    push_str(&mut k, "|");
    push_str(&mut k, calendar_key);
    push_str(&mut k, "|");
    push_str(&mut k, alert_key);
    k
}

/// What was last drawn: the screen key and the terminal size.
pub struct RedrawState {
    last_key: String,
    last_size: Option<(u16, u16)>,
}

/// What the redraw state holds.
pub struct RedrawView {
    pub last_key: Seq<char>,
    pub last_size: Option<(u16, u16)>,
}

impl View for RedrawState {
    type V = RedrawView;

    closed spec fn view(&self) -> RedrawView {
        RedrawView { last_key: self.last_key@, last_size: self.last_size }
    }
}

impl RedrawState {
    /// Nothing drawn yet.
    pub fn new() -> (s: Self)
        ensures
            s@.last_key.len() == 0,
            s@.last_size is None,
    {
        RedrawState { last_key: String::new(), last_size: None }
    }

    /// Whether the screen must be drawn for `key` at `size`: when either
    /// differs from what was last drawn. When it must, they are recorded
    /// as drawn.
    pub fn needs_redraw(&mut self, key: String, size: (u16, u16)) -> (redraw: bool)
        ensures
            redraw == (key@ != old(self)@.last_key || Some(size) != old(self)@.last_size),
            redraw ==> final(self)@ == (RedrawView { last_key: key@, last_size: Some(size) }),
            !redraw ==> final(self)@ == old(self)@,
    {
        let same_size = match self.last_size {
            Some(s) => s.0 == size.0 && s.1 == size.1,
            None => false,
        };
        if key != self.last_key || !same_size {
            self.last_key = key;
            self.last_size = Some(size);
            true
        } else {
            false
        }
    }

    /// Forgets the screen key, so the next frame is drawn.
    pub fn invalidate(&mut self)
        ensures
            final(self)@.last_key.len() == 0,
            final(self)@.last_size == old(self)@.last_size,
    {
        self.last_key = String::new();
    }
}

/// Redraw law: right after a frame is drawn for a key and size, the same
/// key and size need no redraw.
pub proof fn redraw_is_idempotent(drawn: RedrawView, key: Seq<char>, size: (u16, u16))
    requires
        drawn == (RedrawView { last_key: key, last_size: Some(size) }),
    ensures
        !(key != drawn.last_key || Some(size) != drawn.last_size),
{
}

} // verus!
