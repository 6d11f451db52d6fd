//! Calendar events: reading them from tab-separated lines, naming and
//! titling them, and ordering them by start.

use vstd::prelude::*;

use crate::text::{
    chars_of, decimal, join, join_from, push_char, push_decimal, push_str,
    slice_chars, split_chars, split_on, string_of, trim, trim_chars, views,
};
use crate::time::{hour_minute, parse_local_datetime, reads_as, rfc3339_instant, LocalDateTime};

verus! {

/// A calendar event.
#[derive(Debug)]
pub struct CalendarEvent {
    pub start: LocalDateTime,
    pub end: Option<LocalDateTime>,
    pub title: String,
    pub room: Option<String>,
}

/// What a calendar event holds.
pub struct EventView {
    pub start: LocalDateTime,
    pub end: Option<LocalDateTime>,
    pub title: Seq<char>,
    pub room: Option<Seq<char>>,
}

impl View for CalendarEvent {
    type V = EventView;

    open spec fn view(&self) -> EventView {
        EventView {
            start: self.start,
            end: self.end,
            title: self.title@,
            room: match self.room {
                Some(r) => Some(r@),
                None => None,
            },
        }
    }
}

/// The view of an optional event.
pub open spec fn event_view_of(r: Option<CalendarEvent>) -> Option<EventView> {
    match r {
        Some(e) => Some(e@),
        None => None,
    }
}

/// The identity of an event for alerts: its start in seconds since the
/// epoch, a colon, and its title.
pub open spec fn event_id(e: EventView) -> Seq<char> {
    decimal(e.start.secs as int) + seq![':'] + e.title
}

/// The title shown for an event: with its room in parentheses when it has a
/// non-empty one.
pub open spec fn display_title_of(e: EventView) -> Seq<char> {
    match e.room {
        Some(r) => if r.len() > 0 {
            e.title + " ("@ + r + ")"@
        } else {
            e.title
        },
        None => e.title,
    }
}

/// `HH:MM-HH:MM` from start to end, or just the start's `HH:MM`.
pub open spec fn time_range_of(e: EventView) -> Seq<char> {
    match e.end {
        Some(end) => hour_minute(e.start) + seq!['-'] + hour_minute(end),
        None => hour_minute(e.start),
    }
}

impl CalendarEvent {
    /// The identity of the event for alerts.
    pub fn id(&self) -> (s: String)
        ensures
            s@ == event_id(self@),
    {
        let mut s = String::new();
        push_decimal(&mut s, self.start.secs);
        push_char(&mut s, ':');
        push_str(&mut s, self.title.as_str());
        s
    }

    /// The title, with the room in parentheses when there is one.
    pub fn display_title(&self) -> (s: String)
        ensures
            s@ == display_title_of(self@),
    {
        let mut s = String::new();
        push_str(&mut s, self.title.as_str());
        match &self.room {
            Some(room) => {
                if !room.as_str().is_empty() {
                    push_str(&mut s, " (");
                    push_str(&mut s, room.as_str());
                    push_str(&mut s, ")");
                }
            },
            None => {},
        }
        s
    }

    /// `HH:MM-HH:MM`, or `HH:MM` without an end.
    pub fn time_range(&self) -> (s: String)
        ensures
            s@ == time_range_of(self@),
    {
        let mut s = self.start.format_hm();
        match &self.end {
            Some(end) => {
                push_char(&mut s, '-');
                let e = end.format_hm();
                push_str(&mut s, e.as_str());
            },
            None => {},
        }
        s
    }

    /// Whether the event is still to come or going on at `now`: its end, or
    /// its start when it has none, is not before `now`.
    pub open spec fn not_over(self, now: LocalDateTime) -> bool {
        !(match self.end {
            Some(end) => end,
            None => self.start,
        }).precedes(now)
    }

    /// Whether the event is still to come or going on at `now`.
    pub fn is_not_over(&self, now: &LocalDateTime) -> (b: bool)
        ensures
            b == self.not_over(*now),
    {
        let last = match &self.end {
            Some(end) => end,
            None => &self.start,
        };
        !last.is_before(now)
    }
}

/// The event built from parsed parts: none without a start or with a blank
/// title; the title is trimmed and the event has no room.
pub open spec fn event_from(
    start: Option<LocalDateTime>,
    end: Option<LocalDateTime>,
    title: Seq<char>,
) -> Option<EventView> {
    match start {
        None => None,
        Some(s) => if trim(title).len() == 0 {
            None
        } else {
            Some(EventView { start: s, end: end, title: trim(title), room: None })
        },
    }
}

/// The event built from a start, an end and a title already read.
pub fn event_from_parts(start: Option<LocalDateTime>, end: Option<LocalDateTime>, title: &str) -> (r:
    Option<CalendarEvent>)
    ensures
        event_view_of(r) == event_from(start, end, title@),
{
    let start = match start {
        Some(s) => s,
        None => return None,
    };
    let title = trim_chars(&chars_of(title));
    if title.len() == 0 {
        return None;
    }
    Some(CalendarEvent { start, end, title: string_of(&title), room: None })
}

/// What reading an event from start, end and title texts may give: the
/// event built from some reading of the start and of the end (see
/// `reads_as`).
pub open spec fn parts_outcome(
    start: Seq<char>,
    end: Option<Seq<char>>,
    title: Seq<char>,
    r: Option<CalendarEvent>,
) -> bool {
    exists|s: Option<LocalDateTime>, e: Option<LocalDateTime>|
        {
            &&& reads_as(start, s)
            &&& match end {
                Some(x) => reads_as(x, e),
                None => e is None,
            }
            &&& event_view_of(r) == #[trigger] event_from(s, e, title)
        }
}

/// The view of an optional string slice.
pub open spec fn str_view(s: Option<&str>) -> Option<Seq<char>> {
    match s {
        Some(x) => Some(x@),
        None => None,
    }
}

/// Reads an event from the texts of its start, end and title.
pub fn parse_calendar_event_parts(start: &str, end: Option<&str>, title: &str) -> (r: Option<
    CalendarEvent,
>)
    ensures
        parts_outcome(start@, str_view(end), title@, r),
{
    let s = parse_local_datetime(start);
    let e = match end {
        Some(x) => parse_local_datetime(x),
        None => None,
    };
    let r = event_from_parts(s, e, title);
    assert(event_view_of(r) == event_from(s, e, title@));
    r
}

/// The tab-separated fields of a line, each trimmed.
pub open spec fn tsv_fields(line: Seq<char>) -> Seq<Seq<char>> {
    split_on(line, '\t').map_values(|f: Seq<char>| trim(f))
}

/// The start, end and title texts of a calendar line: five or more fields
/// are date, time, end date, end time and title; three or four are start,
/// end and title; two are start and title; extra fields join the title.
pub open spec fn tsv_parts(line: Seq<char>) -> Option<(Seq<char>, Option<Seq<char>>, Seq<char>)> {
    let f = tsv_fields(line);
    if f.len() >= 5 {
        Some((f[0] + seq![' '] + f[1], Some(f[2] + seq![' '] + f[3]), join(f.skip(4), " "@)))
    } else if f.len() >= 3 {
        Some((f[0], Some(f[1]), join(f.skip(2), " "@)))
    } else if f.len() >= 2 {
        Some((f[0], None, f[1]))
    } else {
        None
    }
}

/// What reading an event from a calendar line may give.
pub open spec fn line_outcome(line: Seq<char>, r: Option<CalendarEvent>) -> bool {
    match tsv_parts(line) {
        Some((s, e, t)) => parts_outcome(s, e, t, r),
        None => r is None,
    }
}

/// `a`, a space, then `b`.
fn spaced(a: &Vec<char>, b: &Vec<char>) -> (r: Vec<char>)
    ensures
        r@ == a@ + seq![' '] + b@,
{
    let mut r = slice_chars(a, 0, a.len());
    assert(a@.subrange(0, a@.len() as int) == a@);
    r.push(' ');
    let m = b.len();
    for i in 0..m
        invariant
            m == b@.len(),
            r@ == a@ + seq![' '] + b@.take(i as int),
    {
        r.push(b[i]);
        assert(b@.take(i + 1) == b@.take(i as int).push(b@[i as int]));
    }
    assert(b@.take(m as int) == b@);
    r
}

/// Reads an event from a tab-separated calendar line.
pub fn parse_calendar_event(line: &str) -> (r: Option<CalendarEvent>)
    ensures
        line_outcome(line@, r),
{
    let chars = chars_of(line);
    let pieces = split_chars(&chars, '\t');
    let mut fields: Vec<Vec<char>> = Vec::new();
    let n = pieces.len();
    for i in 0..n
        invariant
            n == pieces@.len(),
            views(pieces@) == split_on(line@, '\t'),
            views(fields@) == split_on(line@, '\t').take(i as int).map_values(
                |f: Seq<char>| trim(f),
            ),
    {
        let t = trim_chars(&pieces[i]);
        let ghost pre = fields@;
        fields.push(t);
        assert(views(fields@) =~= views(pre).push(t@));
        assert(split_on(line@, '\t').take(i + 1).map_values(|f: Seq<char>| trim(f))
            =~= split_on(line@, '\t').take(i as int).map_values(|f: Seq<char>| trim(f)).push(
            trim(split_on(line@, '\t')[i as int]),
        ));
        assert(views(pieces@)[i as int] == pieces@[i as int]@);
    }
    assert(split_on(line@, '\t').take(n as int) == split_on(line@, '\t'));
    let ghost f = tsv_fields(line@);
    assert(views(fields@) == f);
    let count = fields.len();
    assert(count == f.len());
    proof {
        if count >= 2 {
            assert(fields@[0]@ == f[0]);
            assert(fields@[1]@ == f[1]);
        }
        if count >= 4 {
            assert(fields@[2]@ == f[2]);
            assert(fields@[3]@ == f[3]);
        }
    }
    if count >= 5 {
        let start = string_of(&spaced(&fields[0], &fields[1]));
        let end = string_of(&spaced(&fields[2], &fields[3]));
        let title = string_of(&join_from(&fields, 4, " "));
        return parse_calendar_event_parts(start.as_str(), Some(end.as_str()), title.as_str());
    }
    if count >= 3 {
        let start = string_of(&fields[0]);
        let end = string_of(&fields[1]);
        let title = string_of(&join_from(&fields, 2, " "));
        return parse_calendar_event_parts(start.as_str(), Some(end.as_str()), title.as_str());
    }
    if count >= 2 {
        let start = string_of(&fields[0]);
        let title = string_of(&fields[1]);
        return parse_calendar_event_parts(start.as_str(), None, title.as_str());
    }
    None
}

/// `sorted` with `e` placed after every event that does not start after it
/// (insertion that keeps equal starts in arrival order).
pub open spec fn insert_by_start(sorted: Seq<CalendarEvent>, e: CalendarEvent) -> Seq<CalendarEvent>
    decreases sorted.len(),
{
    if sorted.len() == 0 {
        seq![e]
    } else if e.start.precedes(sorted.last().start) {
        insert_by_start(sorted.drop_last(), e).push(sorted.last())
    } else {
        sorted.push(e)
    }
}

/// The events in order of start; events with the same start keep their
/// order (a stable sort).
pub open spec fn sorted_by_start(s: Seq<CalendarEvent>) -> Seq<CalendarEvent>
    decreases s.len(),
{
    if s.len() == 0 {
        seq![]
    } else {
        insert_by_start(sorted_by_start(s.drop_last()), s.last())
    }
}

proof fn lemma_insert_at(sorted: Seq<CalendarEvent>, e: CalendarEvent, j: int)
    requires
        0 <= j <= sorted.len(),
        forall|k: int| j <= k < sorted.len() ==> e.start.precedes(#[trigger] sorted[k].start),
        j == 0 || !e.start.precedes(sorted[j - 1].start),
    ensures
        insert_by_start(sorted, e) == sorted.insert(j, e),
    decreases sorted.len(),
{
    if sorted.len() == 0 {
        assert(sorted.insert(j, e) =~= seq![e]);
    } else if j == sorted.len() {
        assert(sorted.insert(j, e) =~= sorted.push(e));
    } else {
        let d = sorted.drop_last();
        assert(e.start.precedes(sorted[sorted.len() - 1].start));
        assert forall|k: int| j <= k < d.len() implies e.start.precedes(#[trigger] d[k].start) by {
            assert(d[k] == sorted[k]);
        }
        if j > 0 {
            assert(d[j - 1] == sorted[j - 1]);
        }
        lemma_insert_at(d, e, j);
        assert(d.insert(j, e).push(sorted.last()) =~= sorted.insert(j, e));
    }
}

/// The events in order of start, equal starts keeping their order.
pub fn sort_by_start(events: Vec<CalendarEvent>) -> (r: Vec<CalendarEvent>)
    ensures
        r@ == sorted_by_start(events@),
{
    let ghost orig = events@;
    let mut rest = events;
    let mut sorted: Vec<CalendarEvent> = Vec::new();
    let n = rest.len();
    assert(orig.take(0) == Seq::<CalendarEvent>::empty());
    assert(orig.skip(0) == orig);
    for i in 0..n
        invariant
            n == orig.len(),
            rest@ == orig.skip(i as int),
            sorted@ == sorted_by_start(orig.take(i as int)),
    {
        let e = rest.remove(0);
        assert(e == orig[i as int]);
        assert(rest@ == orig.skip(i + 1));
        let mut j = sorted.len();
        while j > 0 && e.start.is_before(&sorted[j - 1].start)
            invariant
                j <= sorted@.len(),
                forall|k: int| j <= k < sorted@.len() ==> e.start.precedes(#[trigger] sorted@[k].start),
            decreases j,
        {
            j = j - 1;
        }
        proof {
            lemma_insert_at(sorted@, e, j as int);
            assert(orig.take(i + 1).drop_last() == orig.take(i as int));
            assert(orig.take(i + 1).last() == e);
        }
        sorted.insert(j, e);
    }
    assert(orig.take(n as int) == orig);
    sorted
}

/// `a` does not start after `b`.
pub open spec fn starts_no_later(a: CalendarEvent, b: CalendarEvent) -> bool {
    !b.start.precedes(a.start)
}

/// The events are in order of start.
pub open spec fn in_start_order(s: Seq<CalendarEvent>) -> bool {
    forall|i: int, j: int| 0 <= i < j < s.len() ==> starts_no_later(#[trigger] s[i], #[trigger] s[j])
}

/// Where `insert_by_start` places `e`.
pub open spec fn insert_position(sorted: Seq<CalendarEvent>, e: CalendarEvent) -> int
    decreases sorted.len(),
{
    if sorted.len() == 0 {
        0
    } else if e.start.precedes(sorted.last().start) {
        insert_position(sorted.drop_last(), e)
    } else {
        sorted.len() as int
    }
}

proof fn lemma_insert_position(sorted: Seq<CalendarEvent>, e: CalendarEvent)
    ensures
        0 <= insert_position(sorted, e) <= sorted.len(),
        forall|k: int|
            insert_position(sorted, e) <= k < sorted.len() ==> e.start.precedes(
                #[trigger] sorted[k].start,
            ),
        insert_position(sorted, e) == 0 || !e.start.precedes(
            sorted[insert_position(sorted, e) - 1].start,
        ),
        insert_by_start(sorted, e) == sorted.insert(insert_position(sorted, e), e),
    decreases sorted.len(),
{
    if sorted.len() > 0 && e.start.precedes(sorted.last().start) {
        let d = sorted.drop_last();
        lemma_insert_position(d, e);
        let p = insert_position(d, e);
        assert forall|k: int| p <= k < sorted.len() implies e.start.precedes(
            #[trigger] sorted[k].start,
        ) by {
            if k < d.len() {
                assert(d[k] == sorted[k]);
            }
        }
        if p > 0 {
            assert(d[p - 1] == sorted[p - 1]);
        }
    }
    let p = insert_position(sorted, e);
    lemma_insert_at(sorted, e, p);
}

proof fn lemma_insert_keeps_order(sorted: Seq<CalendarEvent>, e: CalendarEvent)
    requires
        in_start_order(sorted),
    ensures
        in_start_order(insert_by_start(sorted, e)),
        insert_by_start(sorted, e).to_multiset() == sorted.to_multiset().insert(e),
{
    lemma_insert_position(sorted, e);
    let p = insert_position(sorted, e);
    let r = sorted.insert(p, e);
    vstd::seq_lib::to_multiset_insert(sorted, p, e);
    assert forall|i: int, j: int| 0 <= i < j < r.len() implies starts_no_later(
        #[trigger] r[i],
        #[trigger] r[j],
    ) by {
        if i < p && j < p {
            assert(r[i] == sorted[i] && r[j] == sorted[j]);
        } else if i < p && j == p {
            assert(r[i] == sorted[i]);
            assert(starts_no_later(sorted[i], sorted[p - 1]) || i == p - 1);
        } else if i < p {
            assert(r[i] == sorted[i] && r[j] == sorted[j - 1]);
        } else if i == p {
            assert(r[j] == sorted[j - 1]);
        } else {
            assert(r[i] == sorted[i - 1] && r[j] == sorted[j - 1]);
        }
    }
}

/// Ordering law: the events come out in order of start, and they are the
/// events that went in, each as often as it went in.
pub proof fn sorted_events_are_in_order(s: Seq<CalendarEvent>)
    ensures
        in_start_order(sorted_by_start(s)),
        sorted_by_start(s).to_multiset() == s.to_multiset(),
    decreases s.len(),
{
    if s.len() == 0 {
        assert(s.to_multiset() =~= vstd::multiset::Multiset::<CalendarEvent>::empty()) by {
            vstd::seq_lib::to_multiset_len(s);
        }
        assert(sorted_by_start(s).to_multiset() =~= vstd::multiset::Multiset::<CalendarEvent>::empty()) by {
            vstd::seq_lib::to_multiset_len(sorted_by_start(s));
        }
    } else {
        sorted_events_are_in_order(s.drop_last());
        lemma_insert_keeps_order(sorted_by_start(s.drop_last()), s.last());
        vstd::seq_lib::to_multiset_build(s.drop_last(), s.last());
        assert(s.drop_last().push(s.last()) == s);
    }
}

/// Reading law for calendar lines: an event read from a line of five or
/// more tab-separated fields starts at what its first two fields (date and
/// time, joined by a space) read as, ends at what its third and fourth
/// fields read as (exactly the RFC 3339 instant written there when chrono
/// reads one), and is titled by the rest; a line of three or four fields
/// starts and ends at what its first and second fields read as; a line of
/// two has no end; a shorter line gives no event.
pub proof fn calendar_line_keeps_its_start_and_end(line: Seq<char>, r: Option<CalendarEvent>)
    requires
        line_outcome(line, r),
    ensures
        r is Some ==> tsv_fields(line).len() >= 2,
        r matches Some(e) ==> tsv_fields(line).len() >= 5 ==> {
            let f = tsv_fields(line);
            let end_text = f[2] + seq![' '] + f[3];
            &&& reads_as(f[0] + seq![' '] + f[1], Some(e.start))
            &&& reads_as(end_text, e.end)
            &&& (rfc3339_instant(end_text) matches Some(i) ==> e.end matches Some(t) && (
                t.secs,
                t.nanos,
            ) == i)
            &&& e@.title == trim(join(f.skip(4), " "@))
        },
        r matches Some(e) ==> 3 <= tsv_fields(line).len() < 5 ==> {
            let f = tsv_fields(line);
            &&& reads_as(f[0], Some(e.start))
            &&& reads_as(f[1], e.end)
            &&& e@.title == trim(join(f.skip(2), " "@))
        },
        r matches Some(e) ==> tsv_fields(line).len() == 2 ==> {
            let f = tsv_fields(line);
            &&& reads_as(f[0], Some(e.start))
            &&& e.end is None
            &&& e@.title == trim(f[1])
        },
{
    if let Some((st, en, t)) = tsv_parts(line) {
        let (s, e) = choose|s: Option<LocalDateTime>, e: Option<LocalDateTime>|
            {
                &&& reads_as(st, s)
                &&& match en {
                    Some(x) => reads_as(x, e),
                    None => e is None,
                }
                &&& event_view_of(r) == #[trigger] event_from(s, e, t)
            };
        if r is Some {
            assert(s is Some);
        }
    }
}

} // verus!
