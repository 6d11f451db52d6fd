//! The meeting alert: which event is being announced, which one the user
//! dismissed, and the flashing colours while an alert is up.

use std::time::Instant;
use vstd::prelude::*;

use crate::text::{digits_of, push_digits, push_str};
use crate::time::LocalDateTime;

verus! {

/// `std::time::Instant`, a reading of the monotonic clock.
#[verifier::external_type_specification]
#[verifier::external_body]
pub struct ExInstant(Instant);

/// `Instant::now`: a fresh reading of the monotonic clock (nothing is stated
/// of it).
#[verifier::external_body]
pub(crate) fn instant_now() -> Instant {
    Instant::now()
}

/// `Instant::elapsed`, in whole milliseconds (`Duration::as_millis`); it
/// depends on the clock, so nothing is stated of it.
#[verifier::external_body]
pub(crate) fn elapsed_millis(start: &Instant) -> u128 {
    start.elapsed().as_millis()
}

/// Milliseconds between colour changes of a flashing alert.
pub const ALERT_FLASH_INTERVAL_MS: u128 = 220;

/// The terminal colours the clock draws with.
#[derive(Clone, Copy, Debug, PartialEq, Eq, Structural)]
pub enum TermColor {
    White,
    Black,
    Grey,
    Yellow,
    Cyan,
    Magenta,
    Green,
    Blue,
    Red,
    DarkBlue,
    DarkMagenta,
    DarkRed,
}

/// Which announcement an alert makes.
#[derive(Clone, Copy, Debug, PartialEq, Eq, Structural)]
pub enum AlertKind {
    /// The event starts within ten minutes.
    TenMinutes,
    /// The event is starting.
    Starting,
}

/// An event that qualifies for an alert.
#[derive(Debug)]
pub struct AlertCandidate {
    pub event_id: String,
    pub title: String,
    pub kind: AlertKind,
}

/// The alert state: the alert shown, the last event dismissed, and when the
/// current flashing began.
pub struct AlertState {
    active: Option<AlertCandidate>,
    dismissed_event_id: Option<String>,
    flash_started: Instant,
}

/// What an alert candidate holds.
pub struct CandidateView {
    pub event_id: Seq<char>,
    pub title: Seq<char>,
    pub kind: AlertKind,
}

/// What the alert state holds.
pub struct AlertView {
    pub active: Option<CandidateView>,
    pub dismissed: Option<Seq<char>>,
    pub flash_started: Instant,
}

impl View for AlertCandidate {
    type V = CandidateView;

    open spec fn view(&self) -> CandidateView {
        CandidateView { event_id: self.event_id@, title: self.title@, kind: self.kind }
    }
}

/// The view of an optional candidate.
pub open spec fn candidate_view(c: Option<AlertCandidate>) -> Option<CandidateView> {
    match c {
        Some(c) => Some(c@),
        None => None,
    }
}

impl View for AlertState {
    type V = AlertView;

    closed spec fn view(&self) -> AlertView {
        AlertView {
            active: candidate_view(self.active),
            dismissed: match self.dismissed_event_id {
                Some(d) => Some(d@),
                None => None,
            },
            flash_started: self.flash_started,
        }
    }
}

/// The flash phase `elapsed_ms` milliseconds after the flashing began.
pub open spec fn flash_phase_of(elapsed_ms: u128) -> u128 {
    elapsed_ms / ALERT_FLASH_INTERVAL_MS
}

/// The words that open an alert message.
pub open spec fn kind_prefix(kind: AlertKind) -> Seq<char> {
    match kind {
        AlertKind::TenMinutes => "10 min"@,
        AlertKind::Starting => "now"@,
    }
}

/// The message shown for an alert.
pub open spec fn alert_message(c: CandidateView) -> Seq<char> {
    kind_prefix(c.kind) + ": "@ + c.title + "  (Esc/click to dismiss)"@
}

/// The foreground colour of the clock: white without an alert, else a
/// six-colour cycle over the flash phase.
pub open spec fn foreground_for(active: bool, phase: u128) -> TermColor {
    if !active {
        TermColor::White
    } else if phase % 6 == 0 {
        TermColor::Yellow
    } else if phase % 6 == 1 {
        TermColor::Cyan
    } else if phase % 6 == 2 {
        TermColor::Magenta
    } else if phase % 6 == 3 {
        TermColor::Green
    } else if phase % 6 == 4 {
        TermColor::Blue
    } else {
        TermColor::Red
    }
}

/// The background colour of the clock: black without an alert, else a
/// four-colour cycle over the flash phase.
pub open spec fn background_for(active: bool, phase: u128) -> TermColor {
    if !active {
        TermColor::Black
    } else if phase % 4 == 0 {
        TermColor::Black
    } else if phase % 4 == 1 {
        TermColor::DarkBlue
    } else if phase % 4 == 2 {
        TermColor::DarkMagenta
    } else {
        TermColor::DarkRed
    }
}

/// The key that changes whenever the alert's look changes: empty without an
/// alert, else the flash phase and the message.
pub open spec fn alert_key(active: Option<CandidateView>, phase: u128) -> Seq<char> {
    match active {
        Some(c) => digits_of(phase as nat) + ":"@ + alert_message(c),
        None => seq![],
    }
}

impl AlertState {
    /// No alert, nothing dismissed.
    pub fn new() -> (s: Self)
        ensures
            s@.active is None,
            s@.dismissed is None,
    {
        AlertState { active: None, dismissed_event_id: None, flash_started: instant_now() }
    }

    /// Takes in the event that qualifies for an alert at a moment, if any. An event
    /// the user dismissed raises no alert; the flashing restarts, from a fresh
    /// reading of the clock, when the alert changes event or kind (see
    /// `update_at`).
    pub fn update(&mut self, _now: &LocalDateTime, candidate: Option<AlertCandidate>)
        ensures
            final(self)@.dismissed == old(self)@.dismissed,
            final(self)@.active == active_after_update(old(self)@, candidate_view(candidate)),
            restarts_flash(old(self)@, candidate_view(candidate)) || final(self)@.flash_started
                == old(self)@.flash_started,
    {
        let started = instant_now();
        self.update_at(candidate, started);
    }

    /// Takes in the event that qualifies for an alert, with `started` the
    /// moment the flashing restarts from if it restarts: an event the user
    /// dismissed raises no alert, and the flashing restarts at `started`
    /// exactly when a new alert comes up or the alert changes event or kind.
    pub fn update_at(&mut self, candidate: Option<AlertCandidate>, started: Instant)
        ensures
            final(self)@ == (AlertView {
                active: active_after_update(old(self)@, candidate_view(candidate)),
                dismissed: old(self)@.dismissed,
                flash_started: flash_start_after(old(self)@, candidate_view(candidate), started),
            }),
    {
        let candidate = match candidate {
            Some(c) => c,
            None => {
                self.active = None;
                return ;
            },
        };
        let is_dismissed = match &self.dismissed_event_id {
            Some(dismissed) => *dismissed == candidate.event_id,
            None => false,
        };
        if is_dismissed {
            self.active = None;
            return ;
        }
        let restart = match &self.active {
            Some(active) => active.event_id != candidate.event_id || active.kind != candidate.kind,
            None => true,
        };
        if restart {
            self.flash_started = started;
        }
        self.active = Some(candidate);
    }

    /// Dismisses the alert shown, if any, so its event raises no alert
    /// again; says whether there was one.
    pub fn dismiss(&mut self) -> (dismissed: bool)
        ensures
            dismissed == old(self)@.active is Some,
            final(self)@ == after_dismiss(old(self)@),
    {
        match self.active.take() {
            Some(active) => {
                self.dismissed_event_id = Some(active.event_id);
                true
            },
            None => false,
        }
    }

    /// Whether an alert is shown.
    pub fn is_active(&self) -> (b: bool)
        ensures
            b == self@.active is Some,
    {
        self.active.is_some()
    }

    /// The flash phase for `elapsed_ms` milliseconds since the flashing
    /// began.
    pub fn phase_after(elapsed_ms: u128) -> (phase: u128)
        ensures
            phase == flash_phase_of(elapsed_ms),
    {
        elapsed_ms / ALERT_FLASH_INTERVAL_MS
    }

    /// How many flash intervals have passed since the flashing began (read
    /// from the clock).
    pub fn flash_phase(&self) -> (phase: u128)
        ensures
            exists|ms: u128| phase == #[trigger] flash_phase_of(ms),
    {
        let ms = elapsed_millis(&self.flash_started);
        let phase = Self::phase_after(ms);
        assert(phase == flash_phase_of(ms));
        phase
    }

    /// The foreground colour at a given flash phase.
    pub fn foreground_at(&self, phase: u128) -> (c: TermColor)
        ensures
            c == foreground_for(self@.active is Some, phase),
    {
        if !self.is_active() {
            return TermColor::White;
        }
        let k = phase % 6;
        if k == 0 {
            TermColor::Yellow
        } else if k == 1 {
            TermColor::Cyan
        } else if k == 2 {
            TermColor::Magenta
        } else if k == 3 {
            TermColor::Green
        } else if k == 4 {
            TermColor::Blue
        } else {
            TermColor::Red
        }
    }

    /// The background colour at a given flash phase.
    pub fn background_at(&self, phase: u128) -> (c: TermColor)
        ensures
            c == background_for(self@.active is Some, phase),
    {
        if !self.is_active() {
            return TermColor::Black;
        }
        let k = phase % 4;
        if k == 0 {
            TermColor::Black
        } else if k == 1 {
            TermColor::DarkBlue
        } else if k == 2 {
            TermColor::DarkMagenta
        } else {
            TermColor::DarkRed
        }
    }

    /// The foreground colour now.
    pub fn foreground_color(&self) -> (c: TermColor)
        ensures
            exists|phase: u128| c == #[trigger] foreground_for(self@.active is Some, phase),
    {
        if !self.is_active() {
            assert(TermColor::White == foreground_for(false, 0));
            return TermColor::White;
        }
        let phase = self.flash_phase();
        self.foreground_at(phase)
    }

    /// The background colour now.
    pub fn background_color(&self) -> (c: TermColor)
        ensures
            exists|phase: u128| c == #[trigger] background_for(self@.active is Some, phase),
    {
        if !self.is_active() {
            assert(TermColor::Black == background_for(false, 0));
            return TermColor::Black;
        }
        let phase = self.flash_phase();
        self.background_at(phase)
    }

    /// The alert message, if an alert is shown.
    pub fn message(&self) -> (m: Option<String>)
        ensures
            match self@.active {
                Some(c) => m matches Some(s) && s@ == alert_message(c),
                None => m is None,
            },
    {
        match &self.active {
            Some(active) => {
                let mut s = String::new();
                match active.kind {
                    AlertKind::TenMinutes => push_str(&mut s, "10 min"),
                    AlertKind::Starting => push_str(&mut s, "now"),
                }
                push_str(&mut s, ": ");
                push_str(&mut s, active.title.as_str());
                push_str(&mut s, "  (Esc/click to dismiss)");
                Some(s)
            },
            None => None,
        }
    }

    /// The render key at a given flash phase.
    pub fn render_key_at(&self, phase: u128) -> (k: String)
        ensures
            k@ == alert_key(self@.active, phase),
    {
        match self.message() {
            Some(m) => {
                let mut s = String::new();
                push_digits(&mut s, phase);
                push_str(&mut s, ":");
                push_str(&mut s, m.as_str());
                s
            },
            None => String::new(),
        }
    }

    /// The render key now: it changes whenever the alert's look changes.
    pub fn render_key(&self) -> (k: String)
        ensures
            exists|phase: u128| k@ == #[trigger] alert_key(self@.active, phase),
    {
        if !self.is_active() {
            assert(alert_key(self@.active, 0) == Seq::<char>::empty());
            return String::new();
        }
        let phase = self.flash_phase();
        self.render_key_at(phase)
    }
}

/// The alert shown after offering `offered` to a state `v`: none when
/// nothing qualifies or the event was dismissed, else the offered one.
pub open spec fn active_after_update(v: AlertView, offered: Option<CandidateView>) -> Option<
    CandidateView,
> {
    match offered {
        Some(c) => if v.dismissed == Some(c.event_id) {
            None
        } else {
            Some(c)
        },
        None => None,
    }
}

/// Whether offering `offered` to `v` restarts the flashing: it does when a
/// new alert comes up or the alert changes event or kind.
pub open spec fn restarts_flash(v: AlertView, offered: Option<CandidateView>) -> bool {
    match offered {
        Some(c) => v.dismissed != Some(c.event_id) && match v.active {
            Some(a) => a.event_id != c.event_id || a.kind != c.kind,
            None => true,
        },
        None => false,
    }
}

/// When the flashing began after offering `offered` to `v`, with the
/// clock at `started`: then when it restarts, else unchanged.
pub open spec fn flash_start_after(v: AlertView, offered: Option<CandidateView>, started: Instant) -> Instant {
    if restarts_flash(v, offered) {
        started
    } else {
        v.flash_started
    }
}

/// The state after a dismissal: no alert, and the shown event (if any)
/// remembered as dismissed.
pub open spec fn after_dismiss(v: AlertView) -> AlertView {
    AlertView {
        active: None,
        dismissed: match v.active {
            Some(a) => Some(a.event_id),
            None => v.dismissed,
        },
        flash_started: v.flash_started,
    }
}

/// Dismissal law: after the shown alert is dismissed, offering the same
/// event again (of either kind) raises no alert.
pub proof fn dismissed_event_stays_quiet(v: AlertView, offered: CandidateView)
    requires
        v.active matches Some(a) && a.event_id == offered.event_id,
    ensures
        active_after_update(after_dismiss(v), Some(offered)) is None,
{
}

/// Alert law: an offered event that was not dismissed is the alert shown;
/// offering nothing clears the alert.
pub proof fn offered_event_is_shown(v: AlertView, offered: CandidateView)
    requires
        v.dismissed != Some(offered.event_id),
    ensures
        active_after_update(v, Some(offered)) == Some(offered),
        active_after_update(v, None) is None,
{
}

/// Flash law: an alert that moves from "ten minutes" to "starting" for the
/// same event flashes anew, and offering the alert already shown does not
/// restart its flashing.
pub proof fn flash_restarts_when_event_starts(v: AlertView, offered: CandidateView)
    requires
        v.dismissed != Some(offered.event_id),
        v.active matches Some(a) && a.event_id == offered.event_id,
    ensures
        v.active.unwrap().kind == AlertKind::TenMinutes && offered.kind == AlertKind::Starting
            ==> restarts_flash(v, Some(offered)),
        v.active.unwrap().kind == offered.kind ==> !restarts_flash(v, Some(offered)),
{
}

/// Phase law: the flash phase starts at 0 when the flashing (re)starts,
/// stays 0 for the first interval, and never goes back as more time passes.
pub proof fn flash_phase_never_goes_back(earlier_ms: u128, later_ms: u128)
    requires
        earlier_ms <= later_ms,
    ensures
        flash_phase_of(0) == 0,
        earlier_ms < ALERT_FLASH_INTERVAL_MS ==> flash_phase_of(earlier_ms) == 0,
        flash_phase_of(earlier_ms) <= flash_phase_of(later_ms),
{
    vstd::arithmetic::div_mod::lemma_div_is_ordered(
        earlier_ms as int,
        later_ms as int,
        ALERT_FLASH_INTERVAL_MS as int,
    );
}

} // verus!
