//! The calendar shown under the clock: the events fetched, what is going on
//! now and next, the lines shown for them, and which event calls for an
//! alert.

use std::time::Instant;
use vstd::prelude::*;

use crate::alert::{elapsed_millis, instant_now, AlertCandidate, AlertKind, CandidateView};
use crate::events::{
    display_title_of, event_id, line_outcome, parse_calendar_event, sort_by_start,
    sorted_by_start, time_range_of, CalendarEvent,
};
use crate::text::{chars_of, join, join_from, lines_chars, lines_of, push_str, string_of, strings_view, views};
use crate::time::{hour_minute, seconds_between, seconds_until, LocalDateTime};
use crate::width::{fits_width, truncate_to_width, truncated};

verus! {

/// Milliseconds between calendar refreshes.
pub const CALENDAR_REFRESH_INTERVAL_MS: u128 = 60_000;

/// Seconds before its start at which an event raises an alert.
pub const ALERT_BEFORE_START_SECS: i128 = 600;

/// Seconds after its start during which an event still raises an alert.
pub const ALERT_GRACE_PERIOD_SECS: i128 = 60;

/// Narrowest terminal, in columns, that shows calendar lines.
pub const MIN_SCHEDULE_WIDTH: usize = 12;

/// Where the calendar stands.
#[derive(Debug)]
pub enum CalendarStatus {
    /// Events were read.
    Ready,
    /// No calendar source is set up.
    Disabled,
    /// Reading events failed, with this message.
    Error(String),
}

/// What a calendar status holds.
pub enum StatusView {
    Ready,
    Disabled,
    Error(Seq<char>),
}

impl View for CalendarStatus {
    type V = StatusView;

    open spec fn view(&self) -> StatusView {
        match self {
            CalendarStatus::Ready => StatusView::Ready,
            CalendarStatus::Disabled => StatusView::Disabled,
            CalendarStatus::Error(m) => StatusView::Error(m@),
        }
    }
}

/// The calendar: the events last read, in order of start, when they were
/// read, and how that went.
pub struct CalendarState {
    events: Vec<CalendarEvent>,
    last_refresh: Option<Instant>,
    status: CalendarStatus,
}

/// What the calendar state holds.
pub struct CalendarView {
    pub events: Seq<CalendarEvent>,
    pub last_refresh: Option<Instant>,
    pub status: StatusView,
}

impl View for CalendarState {
    type V = CalendarView;

    closed spec fn view(&self) -> CalendarView {
        CalendarView { events: self.events@, last_refresh: self.last_refresh, status: self.status@ }
    }
}

/// Index of the first item that satisfies `p`.
pub open spec fn first_where<T>(s: Seq<T>, p: spec_fn(T) -> bool) -> Option<int>
    decreases s.len(),
{
    if s.len() == 0 {
        None
    } else if p(s[0]) {
        Some(0)
    } else {
        match first_where(s.drop_first(), p) {
            Some(i) => Some(i + 1),
            None => None,
        }
    }
}

pub(crate) proof fn lemma_first_where<T>(s: Seq<T>, p: spec_fn(T) -> bool, i: int)
    requires
        0 <= i <= s.len(),
        forall|j: int| 0 <= j < i ==> !p(#[trigger] s[j]),
        i < s.len() ==> p(s[i]),
    ensures
        first_where(s, p) == if i < s.len() {
            Some(i)
        } else {
            None
        },
    decreases i,
{
    if i > 0 {
        assert(!p(s[0]));
        let d = s.drop_first();
        assert forall|j: int| 0 <= j < i - 1 implies !p(#[trigger] d[j]) by {
            assert(d[j] == s[j + 1]);
        }
        if i < s.len() {
            assert(d[i - 1] == s[i]);
        }
        lemma_first_where(d, p, i - 1);
    }
}

/// Whether an event is going on at `now`: it has started, has an end after
/// `now`, and does not end before it starts.
pub open spec fn is_current(e: CalendarEvent, now: LocalDateTime) -> bool {
    &&& !now.precedes(e.start)
    &&& match e.end {
        Some(end) => now.precedes(end) && !end.precedes(e.start),
        None => false,
    }
}

/// Whether an event starts after `now`.
pub open spec fn is_upcoming(e: CalendarEvent, now: LocalDateTime) -> bool {
    now.precedes(e.start)
}

/// Whether an event calls for an alert at `now`: it starts within ten
/// minutes, or started less than a minute ago.
pub open spec fn in_alert_window(e: CalendarEvent, now: LocalDateTime) -> bool {
    let s = seconds_between(e.start, now);
    -ALERT_GRACE_PERIOD_SECS < s && s <= ALERT_BEFORE_START_SECS
}

/// The alert an event raises at `now`: "starting" once it has started, else
/// "ten minutes".
pub open spec fn candidate_for(e: CalendarEvent, now: LocalDateTime) -> CandidateView {
    CandidateView {
        event_id: event_id(e@),
        title: display_title_of(e@),
        kind: if seconds_between(e.start, now) <= 0 {
            AlertKind::Starting
        } else {
            AlertKind::TenMinutes
        },
    }
}

/// `is_current` at `now`, as a predicate on events.
pub open spec fn current_at(now: LocalDateTime) -> spec_fn(CalendarEvent) -> bool {
    |e: CalendarEvent| is_current(e, now)
}

/// `is_upcoming` at `now`, as a predicate on events.
pub open spec fn upcoming_at(now: LocalDateTime) -> spec_fn(CalendarEvent) -> bool {
    |e: CalendarEvent| is_upcoming(e, now)
}

/// `in_alert_window` at `now`, as a predicate on events.
pub open spec fn alerting_at(now: LocalDateTime) -> spec_fn(CalendarEvent) -> bool {
    |e: CalendarEvent| in_alert_window(e, now)
}

/// The alert due at `now`, raised by the first event in its window.
pub open spec fn due_alert(events: Seq<CalendarEvent>, now: LocalDateTime) -> Option<
    CandidateView,
> {
    match first_where(events, alerting_at(now)) {
        Some(i) => Some(candidate_for(events[i], now)),
        None => None,
    }
}

/// The line shown when there is neither a current nor an upcoming event.
pub open spec fn status_line(status: StatusView) -> Seq<char> {
    match status {
        StatusView::Ready => "no upcoming calendar events"@,
        StatusView::Disabled => "calendar: configure gws, gcalcli, or TIMECAT_CALENDAR_CMD"@,
        StatusView::Error(e) => "calendar: "@ + e,
    }
}

/// The calendar lines before truncation: the first current event, the first
/// upcoming event, or else the status line.
pub open spec fn raw_lines(v: CalendarView, now: LocalDateTime) -> Seq<Seq<char>> {
    let cur = match first_where(v.events, current_at(now)) {
        Some(i) => seq![
            "now  "@ + time_range_of(v.events[i]@) + "  "@ + display_title_of(v.events[i]@),
        ],
        None => seq![],
    };
    let next = match first_where(v.events, upcoming_at(now)) {
        Some(i) => seq![
            "next "@ + hour_minute(v.events[i].start) + "  "@ + display_title_of(v.events[i]@),
        ],
        None => seq![],
    };
    if cur.len() + next.len() == 0 {
        seq![status_line(v.status)]
    } else {
        cur + next
    }
}

/// The calendar lines shown in a terminal `width` columns wide: none when
/// it is narrower than `MIN_SCHEDULE_WIDTH`, else each cut to the width.
pub open spec fn schedule_lines(v: CalendarView, now: LocalDateTime, width: nat) -> Seq<Seq<char>> {
    if width < MIN_SCHEDULE_WIDTH {
        seq![]
    } else {
        raw_lines(v, now).map_values(|l: Seq<char>| truncated(l, width))
    }
}

/// The events kept from a list of reading outcomes: those read that are
/// not over at `now`, in order.
pub open spec fn kept_events(parsed: Seq<Option<CalendarEvent>>, now: LocalDateTime) -> Seq<
    CalendarEvent,
>
    decreases parsed.len(),
{
    if parsed.len() == 0 {
        seq![]
    } else {
        let kept = kept_events(parsed.drop_last(), now);
        match parsed.last() {
            Some(e) => if e.not_over(now) {
                kept.push(e)
            } else {
                kept
            },
            None => kept,
        }
    }
}

/// The first line of a command's error output, or `fallback` when there is
/// none.
pub open spec fn failure_message(stderr: Seq<char>, fallback: Seq<char>) -> Seq<char> {
    if lines_of(stderr).len() > 0 {
        lines_of(stderr)[0]
    } else {
        fallback
    }
}

/// The first line of `stderr`, or `fallback` when it has none.
pub fn first_line_or(stderr: &str, fallback: &str) -> (s: String)
    ensures
        s@ == failure_message(stderr@, fallback@),
{
    let lines = lines_chars(&chars_of(stderr));
    if lines.len() > 0 {
        assert(views(lines@)[0] == lines@[0]@);
        string_of(&lines[0])
    } else {
        let mut s = String::new();
        push_str(&mut s, fallback);
        s
    }
}

/// Keeping events from one more outcome adds what keeping from that
/// outcome alone gives.
pub(crate) proof fn lemma_kept_step(parsed: Seq<Option<CalendarEvent>>, r: Option<CalendarEvent>, now: LocalDateTime)
    ensures
        kept_events(parsed.push(r), now) == kept_events(parsed, now) + kept_events(seq![r], now),
{
    let one = seq![r];
    assert(parsed.push(r).drop_last() == parsed);
    assert(one.drop_last() == Seq::<Option<CalendarEvent>>::empty());
    assert(kept_events(Seq::<Option<CalendarEvent>>::empty(), now) == Seq::<CalendarEvent>::empty());
    match r {
        Some(e) => {
            if e.not_over(now) {
                assert(kept_events(one, now) == seq![e]);
                assert(kept_events(parsed, now).push(e) =~= kept_events(parsed, now) + seq![e]);
            } else {
                assert(kept_events(parsed, now) =~= kept_events(parsed, now) + Seq::<CalendarEvent>::empty());
            }
        },
        None => {
            assert(kept_events(parsed, now) =~= kept_events(parsed, now) + Seq::<CalendarEvent>::empty());
        },
    }
}

/// Adds a reading outcome to the events kept.
pub fn keep_if_not_over(kept: &mut Vec<CalendarEvent>, r: Option<CalendarEvent>, now: &LocalDateTime)
    ensures
        final(kept)@ == old(kept)@ + kept_events(seq![r], *now),
{
    let ghost one = seq![r];
    assert(one.drop_last() == Seq::<Option<CalendarEvent>>::empty());
    assert(one.last() == r);
    assert(kept_events(Seq::<Option<CalendarEvent>>::empty(), *now) == Seq::<CalendarEvent>::empty());
    match r {
        Some(e) => {
            if e.is_not_over(now) {
                kept.push(e);
            } else {
                assert(old(kept)@ + Seq::<CalendarEvent>::empty() == old(kept)@);
            }
        },
        None => {
            assert(old(kept)@ + Seq::<CalendarEvent>::empty() == old(kept)@);
        },
    }
}

/// The outcome of the calendar command's output: the failure message when
/// it failed, else the events read from its lines that are not over at
/// `now`, in order of start.
pub open spec fn tsv_result(
    success: bool,
    stdout: Seq<char>,
    stderr: Seq<char>,
    now: LocalDateTime,
    parsed: Seq<Option<CalendarEvent>>,
    r: Result<Vec<CalendarEvent>, CalendarStatus>,
) -> bool {
    if !success {
        r matches Err(CalendarStatus::Error(m)) && m@ == failure_message(
            stderr,
            "calendar command failed"@,
        )
    } else {
        &&& parsed.len() == lines_of(stdout).len()
        &&& forall|i: int|
            0 <= i < parsed.len() ==> line_outcome(lines_of(stdout)[i], #[trigger] parsed[i])
        &&& r matches Ok(v) && v@ == sorted_by_start(kept_events(parsed, now))
    }
}

/// Reads the events from a calendar command's output (tab-separated lines,
/// one event each).
pub fn parse_tsv_calendar_output(success: bool, stdout: &str, stderr: &str, now: &LocalDateTime) -> (r:
    Result<Vec<CalendarEvent>, CalendarStatus>)
    ensures
        exists|parsed: Seq<Option<CalendarEvent>>|
            #[trigger] tsv_result(success, stdout@, stderr@, *now, parsed, r),
{
    if !success {
        let message = first_line_or(stderr, "calendar command failed");
        let r = Err(CalendarStatus::Error(message));
        assert(tsv_result(success, stdout@, stderr@, *now, seq![], r));
        return r;
    }
    let lines = lines_chars(&chars_of(stdout));
    let n = lines.len();
    let mut kept: Vec<CalendarEvent> = Vec::new();
    let ghost mut parsed: Seq<Option<CalendarEvent>> = seq![];
    for i in 0..n
        invariant
            n == lines@.len(),
            views(lines@) == lines_of(stdout@),
            parsed.len() == i,
            forall|k: int| 0 <= k < i ==> line_outcome(lines_of(stdout@)[k], #[trigger] parsed[k]),
            kept@ == kept_events(parsed, *now),
    {
        let line = string_of(&lines[i]);
        assert(views(lines@)[i as int] == lines@[i as int]@);
        let r = parse_calendar_event(line.as_str());
        let ghost before = parsed;
        proof {
            parsed = parsed.push(r);
            assert(parsed.drop_last() == before);
        }
        assert(parsed.last() == r);
        keep_if_not_over(&mut kept, r, now);
        proof {
            lemma_kept_step(before, parsed.last(), *now);
        }
    }
    let sorted = sort_by_start(kept);
    let r = Ok(sorted);
    assert(tsv_result(success, stdout@, stderr@, *now, parsed, r));
    r
}

impl CalendarState {
    /// No events, nothing read yet, no source set up.
    pub fn new() -> (s: Self)
        ensures
            s@.events.len() == 0,
            s@.last_refresh is None,
            s@.status == StatusView::Disabled,
    {
        CalendarState { events: Vec::new(), last_refresh: None, status: CalendarStatus::Disabled }
    }

    /// Takes in the outcome of reading the calendar: the events and
    /// `Ready`, or no events and the failure.
    pub fn apply_fetch(&mut self, result: Result<Vec<CalendarEvent>, CalendarStatus>)
        ensures
            final(self)@.last_refresh == old(self)@.last_refresh,
            match result {
                Ok(v) => final(self)@.events == v@ && final(self)@.status == StatusView::Ready,
                Err(e) => final(self)@.events.len() == 0 && final(self)@.status == e@,
            },
    {
        match result {
            Ok(events) => {
                self.events = events;
                self.status = CalendarStatus::Ready;
            },
            Err(error) => {
                self.events.clear();
                self.status = error;
            },
        }
    }

    /// Whether a refresh is due after `elapsed_ms` milliseconds since the
    /// last one (`None`: never read).
    pub fn refresh_due_after(elapsed_ms: Option<u128>) -> (due: bool)
        ensures
            due == match elapsed_ms {
                Some(ms) => ms >= CALENDAR_REFRESH_INTERVAL_MS,
                None => true,
            },
    {
        match elapsed_ms {
            Some(ms) => ms >= CALENDAR_REFRESH_INTERVAL_MS,
            None => true,
        }
    }

    /// Reads the calendar with `fetch` when a minute has passed since the
    /// last reading (or there was none), and takes in the outcome.
    pub fn refresh_if_due<F: FnOnce() -> Result<Vec<CalendarEvent>, CalendarStatus>>(
        &mut self,
        fetch: F,
    )
        requires
            fetch.requires(()),
        ensures
            old(self)@.last_refresh is None ==> final(self)@.last_refresh is Some,
            final(self)@ == old(self)@ || (final(self)@.last_refresh is Some && exists|
                result: Result<Vec<CalendarEvent>, CalendarStatus>,
            |
                #[trigger] fetch.ensures((), result) && match result {
                    Ok(v) => final(self)@.events == v@ && final(self)@.status == StatusView::Ready,
                    Err(e) => final(self)@.events.len() == 0 && final(self)@.status == e@,
                }),
    {
        let elapsed = match &self.last_refresh {
            Some(last) => Some(elapsed_millis(last)),
            None => None,
        };
        if !Self::refresh_due_after(elapsed) {
            return ;
        }
        self.last_refresh = Some(instant_now());
        let result = fetch();
        let ghost r = result;
        self.apply_fetch(result);
        assert(fetch.ensures((), r));
    }

    /// The first event going on at `now`.
    pub fn current_event(&self, now: &LocalDateTime) -> (r: Option<&CalendarEvent>)
        ensures
            match first_where(self@.events, current_at(*now)) {
                Some(i) => r matches Some(e) && *e == self@.events[i],
                None => r is None,
            },
    {
        let n = self.events.len();
        let ghost p = current_at(*now);
        for i in 0..n
            invariant
                p == current_at(*now),
                n == self@.events.len(),
                self@.events == self.events@,
                forall|j: int| 0 <= j < i ==> !p(#[trigger] self.events@[j]),
        {
            let e = &self.events[i];
            let started = !now.is_before(&e.start);
            let current = started && match &e.end {
                Some(end) => now.is_before(end) && !end.is_before(&e.start),
                None => false,
            };
            assert(current == p(self.events@[i as int]));
            if current {
                proof {
                    lemma_first_where(self.events@, p, i as int);
                }
                return Some(e);
            }
        }
        proof {
            lemma_first_where(self.events@, p, n as int);
        }
        None
    }

    /// The first event that starts after `now`.
    pub fn upcoming_event(&self, now: &LocalDateTime) -> (r: Option<&CalendarEvent>)
        ensures
            match first_where(self@.events, upcoming_at(*now)) {
                Some(i) => r matches Some(e) && *e == self@.events[i],
                None => r is None,
            },
    {
        let n = self.events.len();
        let ghost p = upcoming_at(*now);
        for i in 0..n
            invariant
                p == upcoming_at(*now),
                n == self@.events.len(),
                self@.events == self.events@,
                forall|j: int| 0 <= j < i ==> !p(#[trigger] self.events@[j]),
        {
            let e = &self.events[i];
            let later = now.is_before(&e.start);
            assert(later == p(self.events@[i as int]));
            if later {
                proof {
                    lemma_first_where(self.events@, p, i as int);
                }
                return Some(e);
            }
        }
        proof {
            lemma_first_where(self.events@, p, n as int);
        }
        None
    }

    /// The alert due at `now`: raised by the first event that starts within
    /// ten minutes or started less than a minute ago.
    pub fn alert_candidate(&self, now: &LocalDateTime) -> (r: Option<AlertCandidate>)
        ensures
            match r {
                Some(c) => due_alert(self@.events, *now) == Some(c@),
                None => due_alert(self@.events, *now) is None,
            },
    {
        let n = self.events.len();
        let ghost p = alerting_at(*now);
        for i in 0..n
            invariant
                p == alerting_at(*now),
                n == self@.events.len(),
                self@.events == self.events@,
                forall|j: int| 0 <= j < i ==> !p(#[trigger] self.events@[j]),
        {
            let e = &self.events[i];
            let seconds = seconds_until(&e.start, now);
            let window = seconds <= ALERT_BEFORE_START_SECS && seconds > -ALERT_GRACE_PERIOD_SECS;
            assert(window == p(self.events@[i as int]));
            if window {
                proof {
                    lemma_first_where(self.events@, p, i as int);
                }
                let kind = if seconds <= 0 {
                    AlertKind::Starting
                } else {
                    AlertKind::TenMinutes
                };
                let c = AlertCandidate { event_id: e.id(), title: e.display_title(), kind };
                assert(c@ == candidate_for(self@.events[i as int], *now));
                return Some(c);
            }
        }
        proof {
            lemma_first_where(self.events@, p, n as int);
        }
        None
    }

    /// The calendar lines, before cutting to a width.
    fn raw_render_lines(&self, now: &LocalDateTime) -> (lines: Vec<String>)
        ensures
            lines@.len() <= 2,
            lines@.map_values(|l: String| l@) == raw_lines(self@, *now),
    {
        let mut lines: Vec<String> = Vec::new();
        match self.current_event(now) {
            Some(current) => {
                let mut s = String::new();
                push_str(&mut s, "now  ");
                let range = current.time_range();
                push_str(&mut s, range.as_str());
                push_str(&mut s, "  ");
                let title = current.display_title();
                push_str(&mut s, title.as_str());
                lines.push(s);
            },
            None => {},
        }
        match self.upcoming_event(now) {
            Some(upcoming) => {
                let mut s = String::new();
                push_str(&mut s, "next ");
                let hm = upcoming.start.format_hm();
                push_str(&mut s, hm.as_str());
                push_str(&mut s, "  ");
                let title = upcoming.display_title();
                push_str(&mut s, title.as_str());
                lines.push(s);
            },
            None => {},
        }
        if lines.len() == 0 {
            let mut s = String::new();
            match &self.status {
                CalendarStatus::Ready => push_str(&mut s, "no upcoming calendar events"),
                CalendarStatus::Disabled => push_str(
                    &mut s,
                    "calendar: configure gws, gcalcli, or TIMECAT_CALENDAR_CMD",
                ),
                CalendarStatus::Error(error) => {
                    push_str(&mut s, "calendar: ");
                    push_str(&mut s, error.as_str());
                },
            }
            lines.push(s);
        }
        assert(lines@.map_values(|l: String| l@) =~= raw_lines(self@, *now));
        lines
    }

    /// The calendar lines shown under the clock in a terminal `width`
    /// columns wide.
    pub fn render_lines(&self, now: &LocalDateTime, width: usize) -> (lines: Vec<String>)
        ensures
            lines@.len() <= 2,
            strings_view(lines@) == schedule_lines(self@, *now, width as nat),
    {
        if width < MIN_SCHEDULE_WIDTH {
            let lines: Vec<String> = Vec::new();
            assert(strings_view(lines@) =~= schedule_lines(self@, *now, width as nat));
            return lines;
        }
        let raw = self.raw_render_lines(now);
        let mut lines: Vec<String> = Vec::new();
        let n = raw.len();
        for i in 0..n
            invariant
                n == raw@.len(),
                n <= 2,
                raw@.map_values(|l: String| l@) == raw_lines(self@, *now),
                lines@.len() == i,
                forall|k: int|
                    0 <= k < i ==> (#[trigger] lines@[k])@ == truncated(raw@[k]@, width as nat),
                forall|k: int| 0 <= k < i ==> fits_width(#[trigger] lines@[k]@, width as nat),
        {
            lines.push(truncate_to_width(raw[i].as_str(), width));
        }
        assert(strings_view(lines@) =~= schedule_lines(self@, *now, width as nat)) by {
            assert forall|k: int| 0 <= k < n implies raw@[k]@ == raw_lines(self@, *now)[k] by {
                assert(raw@.map_values(|l: String| l@)[k] == raw@[k]@);
            }
        }
        lines
    }

    /// The key that changes whenever the calendar lines change: the lines
    /// for a 200-column terminal, joined with newlines.
    pub fn render_key(&self, now: &LocalDateTime) -> (k: String)
        ensures
            k@ == join(schedule_lines(self@, *now, 200), "\n"@),
    {
        let lines = self.render_lines(now, 200);
        let mut chars: Vec<Vec<char>> = Vec::new();
        let n = lines.len();
        for i in 0..n
            invariant
                n == lines@.len(),
                views(chars@) == lines@.take(i as int).map_values(|l: String| l@),
        {
            let c = chars_of(lines[i].as_str());
            let ghost pre = chars@;
            chars.push(c);
            assert(views(chars@) =~= views(pre).push(c@));
            assert(lines@.take(i + 1).map_values(|l: String| l@) =~= lines@.take(i as int).map_values(
                |l: String| l@,
            ).push(lines@[i as int]@));
        }
        assert(lines@.take(n as int) == lines@);
        assert(views(chars@).skip(0) == views(chars@));
        string_of(&join_from(&chars, 0, "\n"))
    }
}

/// The status for a calendar program that could not be started: disabled
/// when it is not installed, else the error message.
pub fn spawn_failure(not_found: bool, message: String) -> (s: CalendarStatus)
    ensures
        s@ == if not_found {
            StatusView::Disabled
        } else {
            StatusView::Error(message@)
        },
{
    if not_found {
        CalendarStatus::Disabled
    } else {
        CalendarStatus::Error(message)
    }
}

/// Whether a read of the calendar found no program to read it with.
pub open spec fn is_disabled(r: Result<Vec<CalendarEvent>, CalendarStatus>) -> bool {
    r matches Err(CalendarStatus::Disabled)
}

/// Reads the calendar: with the user's command when one is set and not
/// empty; else through the Workspace CLI, and through gcalcli when the
/// Workspace CLI is not installed.
pub fn fetch_calendar_events<C, G, L>(
    custom_command: Option<String>,
    run_command: C,
    run_gws: G,
    run_gcalcli: L,
) -> (r: Result<Vec<CalendarEvent>, CalendarStatus>) where
    C: FnOnce(String) -> Result<Vec<CalendarEvent>, CalendarStatus>,
    G: FnOnce() -> Result<Vec<CalendarEvent>, CalendarStatus>,
    L: FnOnce() -> Result<Vec<CalendarEvent>, CalendarStatus>,

    requires
        forall|c: String| #[trigger] run_command.requires((c,)),
        run_gws.requires(()),
        run_gcalcli.requires(()),
    ensures
        match custom_command {
            Some(c) => c@.len() > 0 ==> run_command.ensures((c,), r),
            None => true,
        },
        (custom_command is None || custom_command.unwrap()@.len() == 0) ==> exists|
            g: Result<Vec<CalendarEvent>, CalendarStatus>,
        |
            #[trigger] run_gws.ensures((), g) && if is_disabled(g) {
                run_gcalcli.ensures((), r)
            } else {
                r == g
            },
{
    match custom_command {
        Some(command) => {
            if !command.as_str().is_empty() {
                return run_command(command);
            }
        },
        None => {},
    }
    let g = run_gws();
    let ghost gg = g;
    match g {
        Err(CalendarStatus::Disabled) => {},
        other => {
            assert(run_gws.ensures((), gg));
            return other;
        },
    }
    let r = run_gcalcli();
    assert(run_gws.ensures((), gg) && is_disabled(gg));
    r
}

/// Filtering law: every event kept from the reading outcomes is one that
/// was read, and none is over at `now`.
pub proof fn kept_events_are_not_over(parsed: Seq<Option<CalendarEvent>>, now: LocalDateTime)
    ensures
        forall|i: int|
            0 <= i < kept_events(parsed, now).len() ==> (#[trigger] kept_events(parsed, now)[i]).not_over(now)
                && exists|k: int| 0 <= k < parsed.len() && parsed[k] == Some(kept_events(parsed, now)[i]),
    decreases parsed.len(),
{
    if parsed.len() > 0 {
        let d = parsed.drop_last();
        kept_events_are_not_over(d, now);
        let kd = kept_events(d, now);
        assert forall|i: int| 0 <= i < kept_events(parsed, now).len() implies (
        #[trigger] kept_events(parsed, now)[i]).not_over(now) && exists|k: int|
            0 <= k < parsed.len() && parsed[k] == Some(kept_events(parsed, now)[i]) by {
            if i < kd.len() {
                assert(kept_events(parsed, now)[i] == kd[i]);
                let k = choose|k: int| 0 <= k < d.len() && d[k] == Some(kd[i]);
                assert(parsed[k] == d[k]);
            } else {
                assert(parsed[parsed.len() - 1] == parsed.last());
            }
        }
    }
}

/// What `first_where` finds: the first position whose item meets `p`.
proof fn lemma_first_where_found<T>(s: Seq<T>, p: spec_fn(T) -> bool)
    ensures
        first_where(s, p) matches Some(i) ==> 0 <= i < s.len() && p(s[i]) && forall|j: int|
            0 <= j < i ==> !p(#[trigger] s[j]),
        first_where(s, p) is None ==> forall|j: int| 0 <= j < s.len() ==> !p(#[trigger] s[j]),
    decreases s.len(),
{
    if s.len() > 0 && !p(s[0]) {
        let d = s.drop_first();
        lemma_first_where_found(d, p);
        assert forall|j: int| 1 <= j < s.len() implies s[j] == d[j - 1] by {}
        if first_where(d, p) is None {
            assert forall|j: int| 0 <= j < s.len() implies !p(#[trigger] s[j]) by {
                if j > 0 {
                    assert(s[j] == d[j - 1]);
                }
            }
        } else {
            let i = first_where(d, p).unwrap();
            assert forall|j: int| 0 <= j < i + 1 implies !p(#[trigger] s[j]) by {
                if j > 0 {
                    assert(s[j] == d[j - 1]);
                }
            }
        }
    }
}

/// Current-event law: the event shown as going on now has started (its
/// start does not come after `now`) and has an end that comes after `now`;
/// when no event is shown as going on, no event has started and not yet
/// ended (with an end no earlier than its start).
pub proof fn current_event_has_started_and_not_ended(v: CalendarView, now: LocalDateTime)
    ensures
        first_where(v.events, current_at(now)) matches Some(i) ==> {
            let e = v.events[i];
            &&& 0 <= i < v.events.len()
            &&& e.start.secs < now.secs || (e.start.secs == now.secs && e.start.nanos
                <= now.nanos)
            &&& e.end matches Some(end) && (now.secs < end.secs || (now.secs == end.secs
                && now.nanos < end.nanos))
        },
        first_where(v.events, current_at(now)) is None ==> forall|j: int|
            0 <= j < v.events.len() ==> {
                let e = #[trigger] v.events[j];
                !(!now.precedes(e.start) && (match e.end {
                    Some(end) => now.precedes(end) && !end.precedes(e.start),
                    None => false,
                }))
            },
{
    lemma_first_where_found(v.events, current_at(now));
    if first_where(v.events, current_at(now)) is None {
        assert forall|j: int| 0 <= j < v.events.len() implies {
            let e = #[trigger] v.events[j];
            !(!now.precedes(e.start) && (match e.end {
                Some(end) => now.precedes(end) && !end.precedes(e.start),
                None => false,
            }))
        } by {
            assert(!current_at(now)(v.events[j]));
        }
    }
}

/// Display law: the calendar shows a line starting with `now` only when
/// some event has started and not yet ended at `now`; and a line starting
/// with `next` follows only for an event that starts after `now`.
pub proof fn now_line_only_for_a_started_event(v: CalendarView, now: LocalDateTime)
    ensures
        raw_lines(v, now).len() >= 1,
        raw_lines(v, now)[0].take(3) == "now"@ ==> exists|j: int|
            0 <= j < v.events.len() && !now.precedes(#[trigger] v.events[j].start) && (match v.events[j].end {
                Some(end) => now.precedes(end),
                None => false,
            }),
        forall|k: int|
            0 <= k < raw_lines(v, now).len() && (#[trigger] raw_lines(v, now)[k]).take(4)
                == "next"@ ==> exists|j: int|
                0 <= j < v.events.len() && now.precedes(#[trigger] v.events[j].start),
{
    reveal_strlit("now");
    reveal_strlit("next");
    reveal_strlit("now  ");
    reveal_strlit("next ");
    reveal_strlit("no upcoming calendar events");
    reveal_strlit("calendar: configure gws, gcalcli, or TIMECAT_CALENDAR_CMD");
    reveal_strlit("calendar: ");
    lemma_first_where_found(v.events, current_at(now));
    lemma_first_where_found(v.events, upcoming_at(now));
    let lines = raw_lines(v, now);
    match first_where(v.events, current_at(now)) {
        Some(i) => {
            assert(current_at(now)(v.events[i]));
        },
        None => {},
    }
    match first_where(v.events, upcoming_at(now)) {
        Some(i) => {
            assert(upcoming_at(now)(v.events[i]));
        },
        None => {},
    }
    let cur = first_where(v.events, current_at(now));
    let next = first_where(v.events, upcoming_at(now));
    if cur is None && next is None {
        let st = status_line(v.status);
        assert(lines =~= seq![st]);
        match v.status {
            StatusView::Ready => {
                assert(st.take(3) != "now"@) by {
                    assert(st.take(3)[2] == ' ');
                }
                assert(st.take(4) != "next"@) by {
                    assert(st.take(4)[1] == 'o');
                }
            },
            StatusView::Disabled => {
                assert(st.take(3) != "now"@) by {
                    assert(st.take(3)[0] == 'c');
                }
                assert(st.take(4) != "next"@) by {
                    assert(st.take(4)[0] == 'c');
                }
            },
            StatusView::Error(e) => {
                assert(st.take(3) != "now"@) by {
                    assert(st.take(3)[0] == 'c');
                }
                assert(st.take(4) != "next"@) by {
                    assert(st.take(4)[0] == 'c');
                }
            },
        }
    } else {
        if cur is Some {
            let i = cur.unwrap();
            let l = "now  "@ + time_range_of(v.events[i]@) + "  "@ + display_title_of(v.events[i]@);
            assert(l.take(4) != "next"@) by {
                assert(l.take(4)[1] == 'o');
            }
        }
        if next is Some {
            let i = next.unwrap();
            let l = "next "@ + hour_minute(v.events[i].start) + "  "@ + display_title_of(v.events[i]@);
            assert(l.take(3) != "now"@) by {
                assert(l.take(3)[1] == 'e');
            }
            assert(l.take(4) =~= "next"@);
        }
    }
}

} // verus!
