//! Events from Google Calendar through the Google Workspace CLI: the JSON
//! parameters of the request, and the events read from its JSON answer.

use vstd::prelude::*;

use crate::calendar::{
    failure_message, first_line_or, first_where, kept_events, keep_if_not_over,
    lemma_first_where, lemma_kept_step, CalendarStatus,
};
use crate::events::{event_view_of, sort_by_start, sorted_by_start, CalendarEvent, EventView};
use crate::text::{chars_of, push_str, string_of, strings_view, trim, trim_chars};
use crate::time::{
    local_rfc3339, parse_local_datetime, reads_as, rfc3339_exact, rfc3339_instant, LocalDateTime,
};

verus! {

/// A JSON value. Numbers keep their text.
#[derive(Debug)]
pub enum JsonValue {
    Null,
    Bool(bool),
    Number(String),
    Str(String),
    Array(Vec<JsonValue>),
    Object(Vec<(String, JsonValue)>),
}

/// `serde_json::Value`, a parsed JSON document.
#[verifier::external_type_specification]
#[verifier::external_body]
pub struct ExSerdeValue(serde_json::Value);

/// The value that `serde_json::from_slice` reads from `bytes`, or its error
/// message.
pub uninterp spec fn json_document(bytes: Seq<u8>) -> Result<JsonValue, Seq<char>>;

/// The JSON string literal that `serde_json` writes for `s`.
pub uninterp spec fn json_quoted(s: Seq<char>) -> Seq<char>;

/// Copies a `serde_json::Value` into a `JsonValue`, member order and all;
/// nothing is stated of it beyond what `serde_parse` states of its result.
#[verifier::external_body]
fn from_serde(v: &serde_json::Value) -> JsonValue {
    match v {
        serde_json::Value::Null => JsonValue::Null,
        serde_json::Value::Bool(b) => JsonValue::Bool(*b),
        serde_json::Value::Number(n) => JsonValue::Number(n.to_string()),
        serde_json::Value::String(s) => JsonValue::Str(s.clone()),
        serde_json::Value::Array(items) => JsonValue::Array(items.iter().map(from_serde).collect()),
        serde_json::Value::Object(members) => {
            let mut out = Vec::new();
            for (k, x) in members {
                out.push((k.clone(), from_serde(x)));
            }
            JsonValue::Object(out)
        },
    }
}

/// `serde_json::from_slice::<Value>`: the result is `json_document(bytes)`,
/// the error kept as its message.
#[verifier::external_body]
fn serde_parse(bytes: &[u8]) -> (r: Result<JsonValue, String>)
    ensures
        match r {
            Ok(v) => json_document(bytes@) == Ok::<JsonValue, Seq<char>>(v),
            Err(m) => json_document(bytes@) == Err::<JsonValue, Seq<char>>(m@),
        },
{
    match serde_json::from_slice::<serde_json::Value>(bytes) {
        Ok(v) => Ok(from_serde(&v)),
        Err(e) => Err(e.to_string()),
    }
}

/// `Value::String(s).to_string()`: the result is `json_quoted(s)`.
#[verifier::external_body]
fn serde_quote(s: &str) -> (r: String)
    ensures
        r@ == json_quoted(s@),
{
    serde_json::Value::String(s.to_string()).to_string()
}

/// The value of the first member of an object named `key`.
pub open spec fn member(entries: Seq<(String, JsonValue)>, key: Seq<char>) -> Option<JsonValue>
    decreases entries.len(),
{
    if entries.len() == 0 {
        None
    } else if entries[0].0@ == key {
        Some(entries[0].1)
    } else {
        member(entries.drop_first(), key)
    }
}

/// The member `key` of an object; none for other values.
pub open spec fn json_get(v: JsonValue, key: Seq<char>) -> Option<JsonValue> {
    match v {
        JsonValue::Object(m) => member(m@, key),
        _ => None,
    }
}

/// The text of a string value.
pub open spec fn json_str(v: Option<JsonValue>) -> Option<Seq<char>> {
    match v {
        Some(JsonValue::Str(s)) => Some(s@),
        _ => None,
    }
}

/// The items of an array value; none for other values.
pub open spec fn json_items(v: Option<JsonValue>) -> Seq<JsonValue> {
    match v {
        Some(JsonValue::Array(a)) => a@,
        _ => seq![],
    }
}

proof fn lemma_member(entries: Seq<(String, JsonValue)>, key: Seq<char>, i: int)
    requires
        0 <= i <= entries.len(),
        forall|j: int| 0 <= j < i ==> (#[trigger] entries[j]).0@ != key,
        i < entries.len() ==> entries[i].0@ == key,
    ensures
        member(entries, key) == if i < entries.len() {
            Some(entries[i].1)
        } else {
            None
        },
    decreases i,
{
    if i > 0 {
        let d = entries.drop_first();
        assert(entries[0].0@ != key);
        assert forall|j: int| 0 <= j < i - 1 implies (#[trigger] d[j]).0@ != key by {
            assert(d[j] == entries[j + 1]);
        }
        if i < entries.len() {
            assert(d[i - 1] == entries[i]);
        }
        lemma_member(d, key, i - 1);
    }
}

impl JsonValue {
    /// Parses a JSON document.
    pub fn parse(bytes: &[u8]) -> (r: Result<JsonValue, String>)
        ensures
            match r {
                Ok(v) => json_document(bytes@) == Ok::<JsonValue, Seq<char>>(v),
                Err(m) => json_document(bytes@) == Err::<JsonValue, Seq<char>>(m@),
            },
    {
        serde_parse(bytes)
    }

    /// The member `key` of an object.
    pub fn get(&self, key: &str) -> (r: Option<&JsonValue>)
        ensures
            match json_get(*self, key@) {
                Some(x) => r matches Some(y) && *y == x,
                None => r is None,
            },
    {
        match self {
            JsonValue::Object(entries) => {
                let k = string_of(&chars_of(key));
                let n = entries.len();
                for i in 0..n
                    invariant
                        n == entries@.len(),
                        k@ == key@,
                        json_get(*self, key@) == member(entries@, key@),
                        forall|j: int| 0 <= j < i ==> (#[trigger] entries@[j]).0@ != key@,
                {
                    let entry = &entries[i];
                    if entry.0 == k {
                        proof {
                            lemma_member(entries@, key@, i as int);
                            assert(json_get(*self, key@) == Some(entries@[i as int].1));
                        }
                        return Some(&entry.1);
                    }
                }
                proof {
                    lemma_member(entries@, key@, n as int);
                }
                None
            },
            _ => None,
        }
    }

    /// The text of a string value.
    pub fn as_str(&self) -> (r: Option<&str>)
        ensures
            match r {
                Some(s) => json_str(Some(*self)) == Some(s@),
                None => json_str(Some(*self)) is None,
            },
    {
        match self {
            JsonValue::Str(s) => Some(s.as_str()),
            _ => None,
        }
    }
}

/// The text of the string member `key` of `v`.
fn str_member<'a>(v: &'a JsonValue, key: &str) -> (r: Option<&'a str>)
    ensures
        match r {
            Some(s) => json_str(json_get(*v, key@)) == Some(s@),
            None => json_str(json_get(*v, key@)) is None,
        },
{
    match v.get(key) {
        Some(x) => x.as_str(),
        None => None,
    }
}

/// What reading the start or end of an API event may give: its `dateTime`
/// read as a date-time when that is a string, else its `date` at midnight,
/// else nothing.
pub open spec fn api_time_outcome(v: JsonValue, r: Option<LocalDateTime>) -> bool {
    match json_str(json_get(v, "dateTime"@)) {
        Some(dt) => reads_as(dt, r),
        None => match json_str(json_get(v, "date"@)) {
            Some(d) => reads_as(d + " 00:00"@, r),
            None => r is None,
        },
    }
}

/// Reads the start or end of an API event.
pub fn parse_calendar_api_event_time(value: &JsonValue) -> (r: Option<LocalDateTime>)
    ensures
        api_time_outcome(*value, r),
{
    if let Some(datetime) = str_member(value, "dateTime") {
        return parse_local_datetime(datetime);
    }
    let date = match str_member(value, "date") {
        Some(d) => d,
        None => return None,
    };
    let mut text = String::new();
    push_str(&mut text, date);
    push_str(&mut text, " 00:00");
    parse_local_datetime(text.as_str())
}

/// Whether an attendee is a resource (a room): its `resource` member is
/// `true`.
pub open spec fn is_resource(a: JsonValue) -> bool {
    json_get(a, "resource"@) == Some(JsonValue::Bool(true))
}

/// The room of an API event: the name (`displayName`, else when that
/// member is missing `email`) of its first resource attendee when that is a
/// string, else its `location`; trimmed, and none when blank.
pub open spec fn api_room(v: JsonValue) -> Option<Seq<char>> {
    let attendees = json_items(json_get(v, "attendees"@));
    let named = match first_where(attendees, |a: JsonValue| is_resource(a)) {
        Some(i) => json_str(
            match json_get(attendees[i], "displayName"@) {
                Some(x) => Some(x),
                None => json_get(attendees[i], "email"@),
            },
        ),
        None => None,
    };
    let name = match named {
        Some(n) => Some(n),
        None => json_str(json_get(v, "location"@)),
    };
    match name {
        Some(n) => if trim(n).len() > 0 {
            Some(trim(n))
        } else {
            None
        },
        None => None,
    }
}

/// The view of an optional string.
pub open spec fn string_view(s: Option<String>) -> Option<Seq<char>> {
    match s {
        Some(x) => Some(x@),
        None => None,
    }
}

/// Reads the room of an API event.
pub fn parse_calendar_api_room(value: &JsonValue) -> (r: Option<String>)
    ensures
        string_view(r) == api_room(*value),
{
    let ghost p = |a: JsonValue| is_resource(a);
    let mut named: Option<&str> = None;
    match value.get("attendees") {
        Some(JsonValue::Array(attendees)) => {
            let n = attendees.len();
            let mut found = false;
            let mut i: usize = 0;
            while i < n && !found
                invariant
                    p == (|a: JsonValue| is_resource(a)),
                    n == attendees@.len(),
                    json_items(json_get(*value, "attendees"@)) == attendees@,
                    i <= n,
                    !found ==> forall|j: int| 0 <= j < i ==> !p(#[trigger] attendees@[j]),
                    !found ==> named is None,
                    found ==> i < n && first_where(attendees@, p) == Some(i as int) && match named {
                        Some(s) => json_str(
                            match json_get(attendees@[i as int], "displayName"@) {
                                Some(x) => Some(x),
                                None => json_get(attendees@[i as int], "email"@),
                            },
                        ) == Some(s@),
                        None => json_str(
                            match json_get(attendees@[i as int], "displayName"@) {
                                Some(x) => Some(x),
                                None => json_get(attendees@[i as int], "email"@),
                            },
                        ) is None,
                    },
                decreases n - i, (if found { 0int } else { 1int }),
            {
                let a = &attendees[i];
                let resource = match a.get("resource") {
                    Some(JsonValue::Bool(b)) => *b,
                    _ => false,
                };
                assert(resource == p(attendees@[i as int]));
                if resource {
                    proof {
                        lemma_first_where(attendees@, p, i as int);
                    }
                    let who = match a.get("displayName") {
                        Some(x) => Some(x),
                        None => a.get("email"),
                    };
                    named = match who {
                        Some(x) => x.as_str(),
                        None => None,
                    };
                    found = true;
                } else {
                    i = i + 1;
                }
            }
            if !found {
                proof {
                    lemma_first_where(attendees@, p, n as int);
                }
            }
        },
        _ => {},
    }
    let name = match named {
        Some(n) => Some(n),
        None => str_member(value, "location"),
    };
    match name {
        Some(n) => {
            let t = trim_chars(&chars_of(n));
            if t.len() > 0 {
                Some(string_of(&t))
            } else {
                None
            }
        },
        None => None,
    }
}

/// The title text of an API event before trimming: its `summary` when that
/// is a string, else `(untitled)`.
pub open spec fn api_title(v: JsonValue) -> Seq<char> {
    match json_str(json_get(v, "summary"@)) {
        Some(t) => t,
        None => "(untitled)"@,
    }
}

/// The event built from the parts of an API event: none without a start.
pub open spec fn api_event_from(
    start: Option<LocalDateTime>,
    end: Option<LocalDateTime>,
    title: Seq<char>,
    room: Option<Seq<char>>,
) -> Option<EventView> {
    match start {
        Some(s) => Some(EventView { start: s, end: end, title: trim(title), room: room }),
        None => None,
    }
}

/// What reading an API event may give: the event built from some reading
/// of its `start` and of its `end` (see `api_time_outcome`), its trimmed
/// title and its room.
pub open spec fn api_event_outcome(v: JsonValue, r: Option<CalendarEvent>) -> bool {
    exists|s: Option<LocalDateTime>, e: Option<LocalDateTime>|
        {
            &&& match json_get(v, "start"@) {
                Some(sv) => api_time_outcome(sv, s),
                None => s is None,
            }
            &&& match json_get(v, "end"@) {
                Some(ev) => api_time_outcome(ev, e),
                None => e is None,
            }
            &&& event_view_of(r) == #[trigger] api_event_from(s, e, api_title(v), api_room(v))
        }
}

/// Reads an event from an item of the Calendar API's answer.
pub fn parse_calendar_api_event(value: &JsonValue) -> (r: Option<CalendarEvent>)
    ensures
        api_event_outcome(*value, r),
{
    let title_text = match str_member(value, "summary") {
        Some(t) => t,
        None => "(untitled)",
    };
    let title = string_of(&trim_chars(&chars_of(title_text)));
    let start = match value.get("start") {
        Some(sv) => parse_calendar_api_event_time(sv),
        None => None,
    };
    let end = match value.get("end") {
        Some(ev) => parse_calendar_api_event_time(ev),
        None => None,
    };
    let room = parse_calendar_api_room(value);
    let r = match start {
        Some(s) => Some(CalendarEvent { start: s, end, title, room }),
        None => None,
    };
    assert(event_view_of(r) == api_event_from(start, end, api_title(*value), api_room(*value)));
    r
}

/// The outcome of the Workspace CLI's answer: the failure message when the
/// command failed, the parse error when the answer is not JSON, else the
/// events read from its `items` that are not over at `now`, in order of
/// start.
pub open spec fn gws_result(
    success: bool,
    stdout: Seq<u8>,
    stderr: Seq<char>,
    now: LocalDateTime,
    parsed: Seq<Option<CalendarEvent>>,
    r: Result<Vec<CalendarEvent>, CalendarStatus>,
) -> bool {
    if !success {
        r matches Err(CalendarStatus::Error(m)) && m@ == failure_message(
            stderr,
            "gws calendar command failed"@,
        )
    } else {
        match json_document(stdout) {
            Err(msg) => r matches Err(CalendarStatus::Error(m)) && m@ == msg,
            Ok(body) => {
                let items = json_items(json_get(body, "items"@));
                &&& parsed.len() == items.len()
                &&& forall|i: int|
                    0 <= i < parsed.len() ==> api_event_outcome(items[i], #[trigger] parsed[i])
                &&& r matches Ok(v) && v@ == sorted_by_start(kept_events(parsed, now))
            },
        }
    }
}

/// Reads the events from the Workspace CLI's answer.
pub fn parse_gws_output(success: bool, stdout: &[u8], stderr: &str, now: &LocalDateTime) -> (r:
    Result<Vec<CalendarEvent>, CalendarStatus>)
    ensures
        exists|parsed: Seq<Option<CalendarEvent>>|
            #[trigger] gws_result(success, stdout@, stderr@, *now, parsed, r),
{
    if !success {
        let message = first_line_or(stderr, "gws calendar command failed");
        let r = Err(CalendarStatus::Error(message));
        assert(gws_result(success, stdout@, stderr@, *now, seq![], r));
        return r;
    }
    let body = match JsonValue::parse(stdout) {
        Ok(b) => b,
        Err(m) => {
            let r = Err(CalendarStatus::Error(m));
            assert(gws_result(success, stdout@, stderr@, *now, seq![], r));
            return r;
        },
    };
    let mut kept: Vec<CalendarEvent> = Vec::new();
    let ghost mut parsed: Seq<Option<CalendarEvent>> = seq![];
    match body.get("items") {
        Some(JsonValue::Array(items)) => {
            let n = items.len();
            for i in 0..n
                invariant
                    n == items@.len(),
                    json_items(json_get(body, "items"@)) == items@,
                    parsed.len() == i,
                    forall|k: int|
                        0 <= k < i ==> api_event_outcome(items@[k], #[trigger] parsed[k]),
                    kept@ == kept_events(parsed, *now),
            {
                let r = parse_calendar_api_event(&items[i]);
                let ghost before = parsed;
                proof {
                    parsed = parsed.push(r);
                    assert(parsed.drop_last() == before);
                }
                assert(parsed.last() == r);
                keep_if_not_over(&mut kept, r, now);
                proof {
                    lemma_kept_step(before, parsed.last(), *now);
                }
            }
        },
        _ => {},
    }
    let sorted = sort_by_start(kept);
    let r = Ok(sorted);
    assert(gws_result(success, stdout@, stderr@, *now, parsed, r));
    r
}

/// The calendar to read: `TIMECAT_GWS_CALENDAR_ID` when set, else
/// `TIMECAT_GOOGLE_CALENDAR_ID`, else `primary`.
pub open spec fn chosen_calendar_id(gws_id: Option<Seq<char>>, google_id: Option<Seq<char>>) -> Seq<
    char,
> {
    match gws_id {
        Some(id) => id,
        None => match google_id {
            Some(id) => id,
            None => "primary"@,
        },
    }
}

/// The calendar to read, from the two settings that may name it.
pub fn calendar_id(gws_id: Option<&str>, google_id: Option<&str>) -> (id: String)
    ensures
        id@ == chosen_calendar_id(
            crate::events::str_view(gws_id),
            crate::events::str_view(google_id),
        ),
{
    let mut id = String::new();
    match gws_id {
        Some(x) => push_str(&mut id, x),
        None => match google_id {
            Some(x) => push_str(&mut id, x),
            None => push_str(&mut id, "primary"),
        },
    }
    id
}

/// The `--params` JSON of the events request: the calendar, the time span,
/// single events in order of start, at most 20 (members in the order that
/// `serde_json` writes them).
pub open spec fn gws_params_text(calendar_id: Seq<char>, time_min: Seq<char>, time_max: Seq<char>) -> Seq<
    char,
> {
    "{\"calendarId\":"@ + json_quoted(calendar_id)
        + ",\"maxResults\":20,\"orderBy\":\"startTime\",\"singleEvents\":true,\"timeMax\":"@
        + json_quoted(time_max) + ",\"timeMin\":"@ + json_quoted(time_min) + "}"@
}

/// The `--params` JSON of the events request for a calendar and a time
/// span given in RFC 3339.
pub fn gws_params(calendar_id: &str, time_min: &str, time_max: &str) -> (p: String)
    ensures
        p@ == gws_params_text(calendar_id@, time_min@, time_max@),
{
    let mut p = String::new();
    push_str(&mut p, "{\"calendarId\":");
    push_str(&mut p, serde_quote(calendar_id).as_str());
    push_str(
        &mut p,
        ",\"maxResults\":20,\"orderBy\":\"startTime\",\"singleEvents\":true,\"timeMax\":",
    );
    push_str(&mut p, serde_quote(time_max).as_str());
    push_str(&mut p, ",\"timeMin\":");
    push_str(&mut p, serde_quote(time_min).as_str());
    push_str(&mut p, "}");
    p
}

/// The arguments of the Workspace CLI call that lists the events of
/// `calendar_id` between the two RFC 3339 times.
pub open spec fn gws_args(calendar_id: Seq<char>, time_min: Seq<char>, time_max: Seq<char>) -> Seq<
    Seq<char>,
> {
    seq![
        "calendar"@,
        "events"@,
        "list"@,
        "--params"@,
        gws_params_text(calendar_id, time_min, time_max),
    ]
}

/// Whether `text` is RFC 3339 text written for the instant `secs`, `nanos`
/// with the local offset `offset`: the offset is under a day, and the text
/// reads back as that instant when `rfc3339_exact` holds.
pub open spec fn written_for(text: Seq<char>, secs: int, nanos: u32, offset: i32) -> bool {
    &&& -86400 < offset < 86400
    &&& rfc3339_exact(secs, nanos, offset) ==> rfc3339_instant(text) == Some((secs as i64, nanos))
}

/// The Workspace CLI call that lists the events of the next day: its
/// arguments, and the local offsets (in seconds) that its two times were
/// written with.
pub struct GwsRequest {
    pub args: Vec<String>,
    pub time_min_offset: i32,
    pub time_max_offset: i32,
}

/// The Workspace CLI call for the day from `now`: the calendar chosen from
/// the two settings, from `now` to one day (86400 seconds) later, each time
/// written in RFC 3339 in the local offset. Absent only when chrono cannot
/// write one of the two times.
pub fn gws_request_args(now: &LocalDateTime, gws_id: Option<&str>, google_id: Option<&str>) -> (r:
    Option<GwsRequest>)
    requires
        now.secs + 86400 <= i64::MAX,
    ensures
        r matches Some(q) ==> exists|time_min: Seq<char>, time_max: Seq<char>|
            {
                &&& strings_view(q.args@) == gws_args(
                    chosen_calendar_id(
                        crate::events::str_view(gws_id),
                        crate::events::str_view(google_id),
                    ),
                    time_min,
                    time_max,
                )
                &&& written_for(time_min, now.secs as int, now.nanos, q.time_min_offset)
                &&& written_for(time_max, now.secs + 86400, now.nanos, q.time_max_offset)
            },
        -62_000_000_000 <= now.secs && now.secs + 86400 <= 253_000_000_000 && now.nanos
            < 1_000_000_000 ==> r is Some,
{
    let (time_min, time_min_offset) = match local_rfc3339(now.secs, now.nanos) {
        Some(t) => t,
        None => return None,
    };
    let (time_max, time_max_offset) = match local_rfc3339(now.secs + 86400, now.nanos) {
        Some(t) => t,
        None => return None,
    };
    let calendar = calendar_id(gws_id, google_id);
    let params = gws_params(calendar.as_str(), time_min.as_str(), time_max.as_str());
    let mut args: Vec<String> = Vec::new();
    args.push(string_of(&chars_of("calendar")));
    args.push(string_of(&chars_of("events")));
    args.push(string_of(&chars_of("list")));
    args.push(string_of(&chars_of("--params")));
    args.push(params);
    assert(strings_view(args@) =~= gws_args(calendar@, time_min@, time_max@));
    Some(GwsRequest { args, time_min_offset, time_max_offset })
}

/// Reading law for API events: an event read from an item has the start
/// its `start` member reads as, the end its `end` member reads as (none
/// without an `end` member), an end exactly at the RFC 3339 instant written
/// in the end's `dateTime` when chrono reads one, the trimmed title and the
/// room of the item.
pub proof fn api_event_keeps_its_start_and_end(v: JsonValue, r: Option<CalendarEvent>)
    requires
        api_event_outcome(v, r),
    ensures
        r matches Some(e) ==> match json_get(v, "start"@) {
            Some(sv) => api_time_outcome(sv, Some(e.start)),
            None => false,
        },
        r matches Some(e) ==> match json_get(v, "end"@) {
            Some(ev) => api_time_outcome(ev, e.end),
            None => e.end is None,
        },
        r matches Some(e) ==> match json_get(v, "end"@) {
            Some(ev) => match json_str(json_get(ev, "dateTime"@)) {
                Some(dt) => match rfc3339_instant(dt) {
                    Some(i) => e.end matches Some(t) && (t.secs, t.nanos) == i,
                    None => true,
                },
                None => true,
            },
            None => true,
        },
        r matches Some(e) ==> e@.title == trim(api_title(v)) && e@.room == api_room(v),
{
    let (s, e) = choose|s: Option<LocalDateTime>, e: Option<LocalDateTime>|
        {
            &&& match json_get(v, "start"@) {
                Some(sv) => api_time_outcome(sv, s),
                None => s is None,
            }
            &&& match json_get(v, "end"@) {
                Some(ev) => api_time_outcome(ev, e),
                None => e is None,
            }
            &&& event_view_of(r) == #[trigger] api_event_from(s, e, api_title(v), api_room(v))
        };
    if r is Some {
        assert(s is Some);
    }
}

} // verus!
