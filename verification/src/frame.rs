//! The screen as rows of text fragments: the big clock (or the plain time
//! when it does not fit), the calendar lines and the alert message.

use vstd::prelude::*;

use crate::alert::{alert_message, background_for, foreground_for, AlertState, CandidateView, TermColor};
use crate::calendar::{schedule_lines, CalendarState, CalendarView};
use crate::time::LocalDateTime;
use crate::text::{chars_of, digits_of, push_char, push_digits, push_str, string_of, strings_view};
use crate::width::{
    centered_column, centered_x, centered_x_scaled, display_width, text_columns,
    truncate_to_width, truncated,
};

verus! {

/// A piece of text placed at column `x` of a row, `cell_width` columns wide
/// on screen.
#[derive(Debug)]
pub struct TextFragment {
    pub x: u16,
    pub text: String,
    pub cell_width: usize,
    pub foreground: TermColor,
    pub background: Option<TermColor>,
}

/// What a text fragment holds.
pub struct FragmentView {
    pub x: u16,
    pub text: Seq<char>,
    pub cell_width: usize,
    pub foreground: TermColor,
    pub background: Option<TermColor>,
}

impl View for TextFragment {
    type V = FragmentView;

    open spec fn view(&self) -> FragmentView {
        FragmentView {
            x: self.x,
            text: self.text@,
            cell_width: self.cell_width,
            foreground: self.foreground,
            background: self.background,
        }
    }
}

/// The fragments of each row of a frame.
pub open spec fn frame_view(f: Seq<Vec<TextFragment>>) -> Seq<Seq<FragmentView>> {
    f.map_values(|row: Vec<TextFragment>| row@.map_values(|t: TextFragment| t@))
}

/// `frame` with `frag` added to row `y`; unchanged when there is no such
/// row or the fragment takes no columns.
pub open spec fn with_fragment(frame: Seq<Seq<FragmentView>>, y: u16, frag: FragmentView) -> Seq<
    Seq<FragmentView>,
> {
    if (y as int) < frame.len() && frag.cell_width != 0 {
        frame.update(y as int, frame[y as int].push(frag))
    } else {
        frame
    }
}

/// Adds a fragment to row `y` of the frame, unless there is no such row or
/// the fragment takes no columns.
pub fn add_fragment(
    frame: &mut Vec<Vec<TextFragment>>,
    y: u16,
    x: u16,
    text: String,
    cell_width: usize,
    foreground: TermColor,
    background: Option<TermColor>,
)
    ensures
        frame_view(final(frame)@) == with_fragment(
            frame_view(old(frame)@),
            y,
            FragmentView { x, text: text@, cell_width, foreground, background },
        ),
{
    let row_index = y as usize;
    if row_index >= frame.len() {
        return ;
    }
    if cell_width == 0 {
        return ;
    }
    let frag = TextFragment { x, text, cell_width, foreground, background };
    let ghost old_frame = frame@;
    frame[row_index].push(frag);
    proof {
        let fv = FragmentView { x, text: frag.text@, cell_width, foreground, background };
        assert(frame@.len() == old_frame.len());
        assert(frame@[row_index as int]@ == old_frame[row_index as int]@.push(frag));
        assert(forall|k: int| 0 <= k < frame@.len() && k != row_index ==> frame@[k] == old_frame[k]);
        assert(frame@[row_index as int]@.map_values(|t: TextFragment| t@) =~= old_frame[row_index as int]@.map_values(|t: TextFragment| t@).push(fv));
        assert(frame_view(frame@) =~= frame_view(old_frame).update(
            y as int,
            frame_view(old_frame)[y as int].push(fv),
        ));
    }
}

/// Largest text scale the plain time is drawn at on kitty.
pub const MAX_KITTY_TEXT_SCALE: usize = 7;

/// `text` drawn `scale` times as large, with kitty's text sizing escape.
pub open spec fn kitty_text(text: Seq<char>, scale: nat) -> Seq<char> {
    seq!['\x1b'] + "]66;s="@ + digits_of(scale) + seq![';'] + text + seq!['\x07']
}

/// `text` wrapped in kitty's text sizing escape for `scale`.
pub fn kitty_scaled(text: &str, scale: usize) -> (s: String)
    ensures
        s@ == kitty_text(text@, scale as nat),
{
    let mut s = String::new();
    push_char(&mut s, '\x1b');
    push_str(&mut s, "]66;s=");
    push_digits(&mut s, scale as u128);
    push_char(&mut s, ';');
    push_str(&mut s, text);
    push_char(&mut s, '\x07');
    s
}

/// `a + b`, at most `u16::MAX`.
pub open spec fn plus_u16(a: u16, b: u16) -> u16 {
    if a + b > u16::MAX {
        u16::MAX
    } else {
        (a + b) as u16
    }
}

/// `a * b`, at most `usize::MAX`.
pub open spec fn times_capped(a: nat, b: nat) -> usize {
    if a * b > usize::MAX {
        usize::MAX
    } else {
        (a * b) as usize
    }
}

/// Row and fragment of calendar line `index`: cut to the columns
/// available, centered, `ts` rows apart from `start_y`, drawn scaled on
/// kitty.
pub open spec fn schedule_fragment(
    line: Seq<char>,
    index: nat,
    terminal_width: u16,
    start_y: u16,
    ts: nat,
    available: nat,
    kitty: bool,
) -> (u16, FragmentView) {
    let text = truncated(line, available);
    let y = plus_u16(start_y, (index * ts) as u16);
    (
        y,
        FragmentView {
            x: centered_column(text_columns(text) as nat, terminal_width, ts),
            text: if kitty && ts > 1 {
                kitty_text(text, ts)
            } else {
                text
            },
            cell_width: times_capped(text_columns(text) as nat, ts),
            foreground: TermColor::Grey,
            background: None,
        },
    )
}

/// `frame` with the first `count` calendar lines added.
pub open spec fn with_schedule_lines(
    frame: Seq<Seq<FragmentView>>,
    lines: Seq<Seq<char>>,
    count: nat,
    terminal_width: u16,
    start_y: u16,
    ts: nat,
    available: nat,
    kitty: bool,
) -> Seq<Seq<FragmentView>>
    decreases count,
{
    if count == 0 {
        frame
    } else {
        let f = with_schedule_lines(
            frame,
            lines,
            (count - 1) as nat,
            terminal_width,
            start_y,
            ts,
            available,
            kitty,
        );
        let (y, frag) = schedule_fragment(
            lines[count - 1],
            (count - 1) as nat,
            terminal_width,
            start_y,
            ts,
            available,
            kitty,
        );
        with_fragment(f, y, frag)
    }
}

/// `frame` with the calendar lines added from row `start_y` at text scale
/// `text_scale` (at least 1); unchanged without lines or screen.
pub open spec fn with_schedule(
    frame: Seq<Seq<FragmentView>>,
    lines: Seq<Seq<char>>,
    terminal_width: u16,
    terminal_height: u16,
    start_y: u16,
    text_scale: nat,
    kitty: bool,
) -> Seq<Seq<FragmentView>> {
    if lines.len() == 0 || terminal_width == 0 || terminal_height == 0 {
        frame
    } else {
        let ts: nat = if text_scale > 1 {
            text_scale
        } else {
            1
        };
        let by_scale = terminal_width as nat / ts;
        let available: nat = if by_scale > 1 {
            by_scale
        } else {
            1
        };
        with_schedule_lines(
            frame,
            lines,
            lines.len(),
            terminal_width,
            start_y,
            ts,
            available,
            kitty,
        )
    }
}

/// Adds the calendar lines to the frame, from row `start_y`.
pub fn add_schedule_fragments(
    frame: &mut Vec<Vec<TextFragment>>,
    lines: &Vec<String>,
    terminal_width: u16,
    terminal_height: u16,
    start_y: u16,
    text_scale: usize,
    kitty: bool,
)
    requires
        lines@.len() * (if text_scale > 1 { text_scale as int } else { 1 }) <= usize::MAX,
    ensures
        frame_view(final(frame)@) == with_schedule(
            frame_view(old(frame)@),
            strings_view(lines@),
            terminal_width,
            terminal_height,
            start_y,
            text_scale as nat,
            kitty,
        ),
{
    if lines.len() == 0 || terminal_width == 0 || terminal_height == 0 {
        return ;
    }
    let text_scale = if text_scale > 1 {
        text_scale
    } else {
        1
    };
    let by_scale = terminal_width as usize / text_scale;
    let available_width = if by_scale > 1 {
        by_scale
    } else {
        1
    };
    let n = lines.len();
    let ghost start = frame_view(frame@);
    for index in 0..n
        invariant
            n == lines@.len(),
            text_scale >= 1,
            n * text_scale <= usize::MAX,
            frame_view(frame@) == with_schedule_lines(
                start,
                strings_view(lines@),
                index as nat,
                terminal_width,
                start_y,
                text_scale as nat,
                available_width as nat,
                kitty,
            ),
    {
        let line = &lines[index];
        let text = truncate_to_width(line.as_str(), available_width);
        let x = centered_x_scaled(text.as_str(), terminal_width, text_scale);
        assert(index * text_scale <= n * text_scale) by (nonlinear_arith)
            requires
                index < n,
        {
        }
        let offset = (index * text_scale) as u16;
        let y = start_y.saturating_add(offset);
        let rendered_text = if kitty && text_scale > 1 {
            kitty_scaled(text.as_str(), text_scale)
        } else {
            string_of(&chars_of(text.as_str()))
        };
        let width = display_width(text.as_str());
        let cell_width = match width.checked_mul(text_scale) {
            Some(w) => w,
            None => usize::MAX,
        };
        assert(strings_view(lines@)[index as int] == line@);
        add_fragment(frame, y, x, rendered_text, cell_width, TermColor::Grey, None);
    }
}

/// `frame` with the alert message, cut to the terminal width and centered
/// on the second row from the bottom; unchanged without an alert or room.
pub open spec fn with_alert_message(
    frame: Seq<Seq<FragmentView>>,
    active: Option<CandidateView>,
    terminal_width: u16,
    terminal_height: u16,
) -> Seq<Seq<FragmentView>> {
    match active {
        None => frame,
        Some(c) => if terminal_width == 0 || terminal_height < 2 {
            frame
        } else {
            let text = truncated(alert_message(c), terminal_width as nat);
            with_fragment(
                frame,
                (terminal_height - 2) as u16,
                FragmentView {
                    x: centered_column(text_columns(text) as nat, terminal_width, 1),
                    text: text,
                    cell_width: text_columns(text),
                    foreground: TermColor::Black,
                    background: Some(TermColor::Yellow),
                },
            )
        },
    }
}

/// Adds the alert message, black on yellow, near the bottom.
pub fn add_alert_message_fragment(
    frame: &mut Vec<Vec<TextFragment>>,
    alert: &AlertState,
    terminal_width: u16,
    terminal_height: u16,
)
    ensures
        frame_view(final(frame)@) == with_alert_message(
            frame_view(old(frame)@),
            alert@.active,
            terminal_width,
            terminal_height,
        ),
{
    let message = match alert.message() {
        Some(m) => m,
        None => return ,
    };
    if terminal_width == 0 || terminal_height < 2 {
        return ;
    }
    let text = truncate_to_width(message.as_str(), terminal_width as usize);
    let x = centered_x(text.as_str(), terminal_width);
    let y = terminal_height.saturating_sub(2);
    let width = display_width(text.as_str());
    add_fragment(
        frame,
        y,
        x,
        string_of(&chars_of(text.as_str())),
        width,
        TermColor::Black,
        Some(TermColor::Yellow),
    );
}

/// `frame` with the time as plain text, cut to the terminal width and
/// centered on the middle row.
pub open spec fn with_compact_time(
    frame: Seq<Seq<FragmentView>>,
    time: Seq<char>,
    terminal_width: u16,
    terminal_height: u16,
) -> Seq<Seq<FragmentView>> {
    if terminal_width == 0 || terminal_height == 0 {
        frame
    } else {
        let message = time.take(
            if (terminal_width as int) < time.len() {
                terminal_width as int
            } else {
                time.len() as int
            },
        );
        with_fragment(
            frame,
            terminal_height / 2,
            FragmentView {
                x: centered_column(text_columns(message) as nat, terminal_width, 1),
                text: message,
                cell_width: text_columns(message),
                foreground: TermColor::White,
                background: None,
            },
        )
    }
}

/// Adds the time as plain text, for a terminal too small for the big
/// clock.
pub fn add_compact_time_fragment(
    frame: &mut Vec<Vec<TextFragment>>,
    time: &str,
    terminal_width: u16,
    terminal_height: u16,
)
    ensures
        frame_view(final(frame)@) == with_compact_time(
            frame_view(old(frame)@),
            time@,
            terminal_width,
            terminal_height,
        ),
{
    if terminal_width == 0 || terminal_height == 0 {
        return ;
    }
    let chars = chars_of(time);
    let keep = if (terminal_width as usize) < chars.len() {
        terminal_width as usize
    } else {
        chars.len()
    };
    let message = string_of(&crate::text::slice_chars(&chars, 0, keep));
    assert(chars@.subrange(0, keep as int) == time@.take(keep as int));
    let x = centered_x(message.as_str(), terminal_width);
    let y = terminal_height / 2;
    let width = display_width(message.as_str());
    add_fragment(
        frame,
        y,
        x,
        string_of(&chars_of(message.as_str())),
        width,
        TermColor::White,
        None,
    );
}

/// `frame` with the time drawn large with kitty's text sizing: as large as
/// fits (up to `MAX_KITTY_TEXT_SCALE`), centered; as plain text when not
/// even one size up fits across.
pub open spec fn with_kitty_time(
    frame: Seq<Seq<FragmentView>>,
    time: Seq<char>,
    terminal_width: u16,
    terminal_height: u16,
) -> Seq<Seq<FragmentView>> {
    if terminal_width == 0 || terminal_height == 0 || time.len() == 0 {
        frame
    } else if terminal_width <= time.len() {
        with_compact_time(frame, time, terminal_width, terminal_height)
    } else {
        let w = time.len() as int;
        let by_width = (terminal_width as int) / w;
        let fit = if by_width < terminal_height {
            by_width
        } else {
            terminal_height as int
        };
        let scale = crate::layout::clamped(fit, 1, MAX_KITTY_TEXT_SCALE as int);
        let content = w * scale;
        with_fragment(
            frame,
            (crate::layout::minus(terminal_height as int, scale) / 2) as u16,
            FragmentView {
                x: (crate::layout::minus(terminal_width as int, content) / 2) as u16,
                text: kitty_text(time, scale as nat),
                cell_width: content as usize,
                foreground: TermColor::White,
                background: None,
            },
        )
    }
}

/// Adds the time drawn large with kitty's text sizing, for a terminal too
/// small for the big clock.
pub fn add_kitty_compact_time_fragment(
    frame: &mut Vec<Vec<TextFragment>>,
    time: &str,
    terminal_width: u16,
    terminal_height: u16,
)
    ensures
        frame_view(final(frame)@) == with_kitty_time(
            frame_view(old(frame)@),
            time@,
            terminal_width,
            terminal_height,
        ),
{
    if terminal_width == 0 || terminal_height == 0 {
        return ;
    }
    let message_width = crate::text::chars_of(time).len();
    if message_width == 0 {
        return ;
    }
    if terminal_width as usize <= message_width {
        return add_compact_time_fragment(frame, time, terminal_width, terminal_height);
    }
    let by_width = terminal_width as usize / message_width;
    assert(by_width >= 1) by (nonlinear_arith)
        requires
            terminal_width as usize > message_width,
            message_width > 0,
            by_width == terminal_width as usize / message_width,
    {
    }
    let fit = if by_width < terminal_height as usize {
        by_width
    } else {
        terminal_height as usize
    };
    let scale = if fit < 1 {
        1
    } else if fit > MAX_KITTY_TEXT_SCALE {
        MAX_KITTY_TEXT_SCALE
    } else {
        fit
    };
    assert(message_width * scale <= terminal_width) by (nonlinear_arith)
        requires
            scale <= by_width,
            by_width == terminal_width as usize / message_width,
            message_width > 0,
    {
    }
    let content_width = message_width * scale;
    let x = terminal_width.saturating_sub(content_width as u16) / 2;
    let y = terminal_height.saturating_sub(scale as u16) / 2;
    add_fragment(
        frame,
        y,
        x,
        kitty_scaled(time, scale),
        content_width,
        TermColor::White,
        None,
    );
}

/// The longest of the rows, in characters.
pub open spec fn max_len(rows: Seq<Seq<char>>) -> nat
    decreases rows.len(),
{
    if rows.len() == 0 {
        0
    } else {
        let m = max_len(rows.drop_last());
        if rows.last().len() > m {
            rows.last().len()
        } else {
            m
        }
    }
}

/// `frame` with the first `count` rows of the big clock, from row
/// `digit_y` at column `digit_x`.
pub open spec fn with_digit_rows(
    frame: Seq<Seq<FragmentView>>,
    rows: Seq<Seq<char>>,
    count: nat,
    digit_x: u16,
    digit_y: u16,
    foreground: TermColor,
) -> Seq<Seq<FragmentView>>
    decreases count,
{
    if count == 0 {
        frame
    } else {
        with_fragment(
            with_digit_rows(frame, rows, (count - 1) as nat, digit_x, digit_y, foreground),
            (digit_y + (count - 1)) as u16,
            FragmentView {
                x: digit_x,
                text: rows[count - 1],
                cell_width: rows[count - 1].len() as usize,
                foreground: foreground,
                background: None,
            },
        )
    }
}

/// An empty frame of `height` rows.
pub open spec fn empty_frame(height: nat) -> Seq<Seq<FragmentView>> {
    Seq::new(height, |i: int| Seq::<FragmentView>::empty())
}

/// The screen for `time` with the calendar lines `schedule` and the alert
/// state: the big clock at the scale chosen and laid out when it fits, else
/// the time as plain text (large on kitty) with the calendar lines just
/// above the bottom; then the alert message.
pub open spec fn clock_frame(
    time: Seq<char>,
    terminal_width: u16,
    terminal_height: u16,
    schedule: Seq<Seq<char>>,
    active: Option<CandidateView>,
    foreground: TermColor,
    kitty: bool,
) -> Seq<Seq<FragmentView>> {
    let scale = crate::layout::chosen_scale(
        time,
        terminal_width as int,
        terminal_height as int,
        schedule.len() as int,
        active is Some,
        kitty,
    );
    let rows = crate::digits::rendered(time, scale as nat);
    let empty = empty_frame(terminal_height as nat);
    match crate::layout::layout_for(
        max_len(rows) as int,
        rows.len() as int,
        scale,
        schedule.len() as int,
        terminal_width as int,
        terminal_height as int,
        active is Some,
        kitty,
    ) {
        None => {
            let f = if kitty {
                with_kitty_time(empty, time, terminal_width, terminal_height)
            } else {
                with_compact_time(empty, time, terminal_width, terminal_height)
            };
            let y = crate::layout::minus(
                terminal_height as int,
                (schedule.len() as u16) + crate::layout::reserved_rows(active is Some),
            ) as u16;
            let f = with_schedule(f, schedule, terminal_width, terminal_height, y, 1, kitty);
            with_alert_message(f, active, terminal_width, terminal_height)
        },
        Some((x, y, sy, ts)) => {
            let f = with_digit_rows(empty, rows, rows.len(), x as u16, y as u16, foreground);
            let f = with_schedule(
                f,
                schedule,
                terminal_width,
                terminal_height,
                sy as u16,
                ts as nat,
                kitty,
            );
            with_alert_message(f, active, terminal_width, terminal_height)
        },
    }
}

/// Lays out the screen for `time`, the calendar lines and the alert, with
/// the clock in `foreground`.
#[verifier::rlimit(40)]
pub fn compose_frame(
    time: &str,
    terminal_width: u16,
    terminal_height: u16,
    schedule_lines: &Vec<String>,
    alert: &AlertState,
    foreground: TermColor,
    kitty: bool,
) -> (frame: Vec<Vec<TextFragment>>)
    requires
        time@.len() * 6 <= usize::MAX,
        schedule_lines@.len() <= u16::MAX - 3,
    ensures
        frame_view(frame@) == clock_frame(
            time@,
            terminal_width,
            terminal_height,
            strings_view(schedule_lines@),
            alert@.active,
            foreground,
            kitty,
        ),
{
    let line_count = schedule_lines.len();
    let scale = crate::layout::clock_scale(
        time,
        terminal_width as usize,
        terminal_height as usize,
        line_count,
        alert,
        kitty,
    );
    proof {
        let base = crate::digits::base_width(time@) as int;
        let aw = crate::layout::minus(terminal_width as int, 4 * crate::layout::MIN_MARGIN) as int;
        let ah = crate::layout::minus(
            crate::layout::usable_height(terminal_height as int, alert@.active is Some) as int,
            crate::layout::MIN_MARGIN as int,
        ) as int;
        crate::layout::chosen_scale_is_largest_fit(
            crate::layout::scale_limit(base, aw, ah),
            base,
            aw,
            ah,
            line_count as int,
            kitty,
        );
    }
    let rows = render_digits_rows(time, scale);
    let content_width = widest(&rows);
    let content_height = rows.len();
    let mut frame = blank_frame(terminal_height as usize);
    let ghost empty = frame_view(frame@);
    assert(strings_view(rows@) == crate::digits::rendered(time@, scale as nat));
    let layout = crate::layout::clock_layout(
        content_width,
        content_height,
        scale,
        line_count,
        terminal_width,
        terminal_height,
        alert,
        kitty,
    );
    match layout {
        None => {
            if kitty {
                add_kitty_compact_time_fragment(&mut frame, time, terminal_width, terminal_height);
            } else {
                add_compact_time_fragment(&mut frame, time, terminal_width, terminal_height);
            }
            let y = crate::layout::compact_schedule_y(line_count, terminal_height, alert);
            add_schedule_fragments(
                &mut frame,
                schedule_lines,
                terminal_width,
                terminal_height,
                y,
                1,
                kitty,
            );
            add_alert_message_fragment(&mut frame, alert, terminal_width, terminal_height);
        },
        Some(layout) => {
            proof {
                crate::layout::laid_out_clock_fits(
                    content_width as int,
                    content_height as int,
                    scale as int,
                    line_count as int,
                    terminal_width as int,
                    terminal_height as int,
                    alert@.active is Some,
                    kitty,
                );
            }
            add_digit_rows(&mut frame, &rows, layout.digit_x, layout.digit_y, foreground);
            add_schedule_fragments(
                &mut frame,
                schedule_lines,
                terminal_width,
                terminal_height,
                layout.schedule_y,
                layout.schedule_text_scale,
                kitty,
            );
            add_alert_message_fragment(&mut frame, alert, terminal_width, terminal_height);
        },
    }
    frame
}

/// The length of the longest row, in characters.
fn widest(rows: &Vec<String>) -> (w: usize)
    ensures
        w == max_len(strings_view(rows@)),
{
    let mut content_width: usize = 0;
    let count = rows.len();
    for i in 0..count
        invariant
            count == rows@.len(),
            content_width == max_len(strings_view(rows@.take(i as int))),
    {
        let w = chars_of(rows[i].as_str()).len();
        assert(strings_view(rows@.take(i + 1)).drop_last() == strings_view(rows@.take(i as int)));
        assert(strings_view(rows@.take(i + 1)).last() == rows@[i as int]@);
        if w > content_width {
            content_width = w;
        }
    }
    assert(rows@.take(count as int) == rows@);
    content_width
}

/// A frame of `height` empty rows.
fn blank_frame(height: usize) -> (frame: Vec<Vec<TextFragment>>)
    ensures
        frame_view(frame@) == empty_frame(height as nat),
{
    let mut frame: Vec<Vec<TextFragment>> = Vec::new();
    for i in 0..height
        invariant
            frame@.len() == i,
            forall|k: int| 0 <= k < i ==> (#[trigger] frame@[k])@.len() == 0,
    {
        frame.push(Vec::new());
    }
    assert forall|k: int| 0 <= k < height implies #[trigger] frame_view(frame@)[k] == empty_frame(
        height as nat,
    )[k] by {
        assert(frame@[k]@.map_values(|t: TextFragment| t@) =~= Seq::<FragmentView>::empty());
    }
    assert(frame_view(frame@) =~= empty_frame(height as nat));
    frame
}

/// Adds the rows of the big clock, from row `digit_y` at column `digit_x`.
fn add_digit_rows(
    frame: &mut Vec<Vec<TextFragment>>,
    rows: &Vec<String>,
    digit_x: u16,
    digit_y: u16,
    foreground: TermColor,
)
    requires
        digit_y + rows@.len() <= u16::MAX,
    ensures
        frame_view(final(frame)@) == with_digit_rows(
            frame_view(old(frame)@),
            strings_view(rows@),
            rows@.len(),
            digit_x,
            digit_y,
            foreground,
        ),
{
    let count = rows.len();
    let ghost start = frame_view(frame@);
    for row in 0..count
        invariant
            count == rows@.len(),
            digit_y + count <= u16::MAX,
            frame_view(frame@) == with_digit_rows(
                start,
                strings_view(rows@),
                row as nat,
                digit_x,
                digit_y,
                foreground,
            ),
    {
        let line = &rows[row];
        let y = digit_y + row as u16;
        let width = chars_of(line.as_str()).len();
        assert(strings_view(rows@)[row as int] == line@);
        add_fragment(frame, y, digit_x, string_of(&chars_of(line.as_str())), width, foreground, None);
    }
}

/// The rendered clock rows (see `render_digits`).
fn render_digits_rows(time: &str, scale: usize) -> (rows: Vec<String>)
    requires
        1 <= scale <= crate::layout::MAX_CLOCK_SCALE,
    ensures
        strings_view(rows@) == crate::digits::rendered(time@, scale as nat),
{
    let rows = crate::digits::render_digits(time, scale);
    assert(strings_view(rows@) =~= crate::digits::rendered(time@, scale as nat));
    rows
}

/// A terminal drawing step.
#[derive(Debug)]
pub enum DrawCommand {
    /// Move the cursor to column, row.
    MoveTo(u16, u16),
    /// Set the text colour.
    Foreground(TermColor),
    /// Set the background colour.
    Background(TermColor),
    /// Print text at the cursor.
    Print(String),
    /// Return to the terminal's own colours.
    ResetColor,
}

/// What a drawing step holds.
pub enum CommandView {
    MoveTo(u16, u16),
    Foreground(TermColor),
    Background(TermColor),
    Print(Seq<char>),
    ResetColor,
}

impl View for DrawCommand {
    type V = CommandView;

    open spec fn view(&self) -> CommandView {
        match self {
            DrawCommand::MoveTo(x, y) => CommandView::MoveTo(*x, *y),
            DrawCommand::Foreground(c) => CommandView::Foreground(*c),
            DrawCommand::Background(c) => CommandView::Background(*c),
            DrawCommand::Print(s) => CommandView::Print(s@),
            DrawCommand::ResetColor => CommandView::ResetColor,
        }
    }
}

/// The views of a list of drawing steps.
pub open spec fn commands_view(v: Seq<DrawCommand>) -> Seq<CommandView> {
    v.map_values(|c: DrawCommand| c@)
}

/// The views of a list of fragments.
pub open spec fn fragments_view(v: Seq<TextFragment>) -> Seq<FragmentView> {
    v.map_values(|t: TextFragment| t@)
}

/// `sorted` with `f` placed after every fragment that does not start to
/// its right (insertion that keeps equal columns in order).
pub open spec fn insert_by_x(sorted: Seq<FragmentView>, f: FragmentView) -> Seq<FragmentView>
    decreases sorted.len(),
{
    if sorted.len() == 0 {
        seq![f]
    } else if f.x < sorted.last().x {
        insert_by_x(sorted.drop_last(), f).push(sorted.last())
    } else {
        sorted.push(f)
    }
}

/// The fragments from left to right; fragments at the same column keep
/// their order (a stable sort).
pub open spec fn sorted_by_x(s: Seq<FragmentView>) -> Seq<FragmentView>
    decreases s.len(),
{
    if s.len() == 0 {
        seq![]
    } else {
        insert_by_x(sorted_by_x(s.drop_last()), s.last())
    }
}

proof fn lemma_insert_by_x_at(sorted: Seq<FragmentView>, f: FragmentView, j: int)
    requires
        0 <= j <= sorted.len(),
        forall|k: int| j <= k < sorted.len() ==> f.x < (#[trigger] sorted[k]).x,
        j == 0 || !(f.x < sorted[j - 1].x),
    ensures
        insert_by_x(sorted, f) == sorted.insert(j, f),
    decreases sorted.len(),
{
    if sorted.len() == 0 {
        assert(sorted.insert(j, f) =~= seq![f]);
    } else if j == sorted.len() {
        assert(sorted.insert(j, f) =~= sorted.push(f));
    } else {
        let d = sorted.drop_last();
        assert(f.x < sorted[sorted.len() - 1].x);
        assert forall|k: int| j <= k < d.len() implies f.x < (#[trigger] d[k]).x by {
            assert(d[k] == sorted[k]);
        }
        if j > 0 {
            assert(d[j - 1] == sorted[j - 1]);
        }
        lemma_insert_by_x_at(d, f, j);
        assert(d.insert(j, f).push(sorted.last()) =~= sorted.insert(j, f));
    }
}

/// A copy of a fragment.
fn copy_fragment(f: &TextFragment) -> (c: TextFragment)
    ensures
        c@ == f@,
{
    TextFragment {
        x: f.x,
        text: f.text.clone(),
        cell_width: f.cell_width,
        foreground: f.foreground,
        background: f.background,
    }
}

/// Copies of the fragments, from left to right, equal columns in order.
pub fn sort_fragments(row: &Vec<TextFragment>) -> (sorted: Vec<TextFragment>)
    ensures
        fragments_view(sorted@) == sorted_by_x(fragments_view(row@)),
{
    let n = row.len();
    let mut sorted: Vec<TextFragment> = Vec::new();
    assert(fragments_view(row@).take(0) == Seq::<FragmentView>::empty());
    for i in 0..n
        invariant
            n == row@.len(),
            fragments_view(sorted@) == sorted_by_x(fragments_view(row@).take(i as int)),
    {
        let f = copy_fragment(&row[i]);
        let mut j = sorted.len();
        while j > 0 && f.x < sorted[j - 1].x
            invariant
                j <= sorted@.len(),
                forall|k: int| j <= k < sorted@.len() ==> f.x < (#[trigger] sorted@[k]).x,
            decreases j,
        {
            j = j - 1;
        }
        let ghost pre = sorted@;
        proof {
            assert forall|k: int| j <= k < pre.len() implies f@.x < (
            #[trigger] fragments_view(pre)[k]).x by {
                assert(fragments_view(pre)[k] == pre[k]@);
            }
            if j > 0 {
                assert(fragments_view(pre)[j - 1] == pre[j - 1]@);
            }
            lemma_insert_by_x_at(fragments_view(pre), f@, j as int);
            let t = fragments_view(row@).take(i + 1);
            assert(t.drop_last() == fragments_view(row@).take(i as int));
            assert(t.last() == f@);
        }
        sorted.insert(j, f);
        assert(fragments_view(sorted@) =~= fragments_view(pre).insert(j as int, f@));
    }
    assert(fragments_view(row@).take(n as int) == fragments_view(row@));
    sorted
}

/// `a + b`, at most `usize::MAX`.
pub open spec fn plus_usize(a: nat, b: nat) -> nat {
    if a + b > usize::MAX {
        usize::MAX as nat
    } else {
        a + b
    }
}

/// The steps that draw one fragment with the cursor at column `cursor`,
/// and the cursor after them: nothing past the right edge; blanks up to the
/// fragment, then its colours, its text and the frame colours again; the
/// cursor moves by its width, up to the right edge.
pub open spec fn fragment_ops(
    cursor: nat,
    f: FragmentView,
    width: nat,
    foreground: TermColor,
    background: TermColor,
) -> (Seq<CommandView>, nat) {
    let x = f.x as nat;
    if x >= width {
        (seq![], cursor)
    } else {
        let pad = if x > cursor {
            seq![CommandView::Print(crate::text::repeat_seq(' ', (x - cursor) as nat))]
        } else {
            seq![]
        };
        let at: nat = if x > cursor {
            x
        } else {
            cursor
        };
        let moved = plus_usize(at, f.cell_width as nat);
        (
            pad + seq![
                CommandView::Foreground(f.foreground),
                CommandView::Background(
                    match f.background {
                        Some(b) => b,
                        None => background,
                    },
                ),
                CommandView::Print(f.text),
                CommandView::Foreground(foreground),
                CommandView::Background(background),
            ],
            if moved < width {
                moved
            } else {
                width
            },
        )
    }
}

/// The steps that draw the fragments in order, from column 0, and the
/// cursor after them.
pub open spec fn row_ops(
    frags: Seq<FragmentView>,
    width: nat,
    foreground: TermColor,
    background: TermColor,
) -> (Seq<CommandView>, nat)
    decreases frags.len(),
{
    if frags.len() == 0 {
        (seq![], 0)
    } else {
        let (ops, cursor) = row_ops(frags.drop_last(), width, foreground, background);
        let (more, next) = fragment_ops(cursor, frags.last(), width, foreground, background);
        (ops + more, next)
    }
}

/// The steps that draw row `y`: move to its start in the frame colours,
/// draw its fragments from left to right, and blank the rest of the row.
pub open spec fn row_commands(
    y: u16,
    row: Seq<FragmentView>,
    width: nat,
    foreground: TermColor,
    background: TermColor,
) -> Seq<CommandView> {
    let (ops, cursor) = row_ops(sorted_by_x(row), width, foreground, background);
    seq![
        CommandView::MoveTo(0, y),
        CommandView::Foreground(foreground),
        CommandView::Background(background),
    ] + ops + if cursor < width {
        seq![CommandView::Print(crate::text::repeat_seq(' ', (width - cursor) as nat))]
    } else {
        seq![]
    }
}

/// The steps that draw the first `count` rows.
pub open spec fn rows_commands(
    frame: Seq<Seq<FragmentView>>,
    count: nat,
    width: nat,
    foreground: TermColor,
    background: TermColor,
) -> Seq<CommandView>
    decreases count,
{
    if count == 0 {
        seq![]
    } else {
        rows_commands(frame, (count - 1) as nat, width, foreground, background) + row_commands(
            (count - 1) as u16,
            frame[count - 1],
            width,
            foreground,
            background,
        )
    }
}

/// The steps that draw a frame: every row, then the terminal's colours
/// back.
pub open spec fn frame_commands(
    frame: Seq<Seq<FragmentView>>,
    width: nat,
    foreground: TermColor,
    background: TermColor,
) -> Seq<CommandView> {
    rows_commands(frame, frame.len(), width, foreground, background) + seq![
        CommandView::ResetColor,
    ]
}

/// A string of `n` blanks.
fn blanks(n: usize) -> (s: String)
    ensures
        s@ == crate::text::repeat_seq(' ', n as nat),
{
    let mut s = String::new();
    crate::text::push_repeat(&mut s, ' ', n);
    assert(s@ =~= crate::text::repeat_seq(' ', n as nat));
    s
}

/// Appends a drawing step.
fn emit(out: &mut Vec<DrawCommand>, c: DrawCommand)
    ensures
        commands_view(final(out)@) == commands_view(old(out)@).push(c@),
{
    out.push(c);
    assert(commands_view(out@) =~= commands_view(old(out)@).push(c@));
}

/// Appends the steps that draw one row.
#[verifier::rlimit(40)]
fn draw_row(
    out: &mut Vec<DrawCommand>,
    y: u16,
    row: &Vec<TextFragment>,
    width: usize,
    background: TermColor,
    foreground: TermColor,
)
    ensures
        commands_view(final(out)@) == commands_view(old(out)@) + row_commands(
            y,
            fragments_view(row@),
            width as nat,
            foreground,
            background,
        ),
{
    emit(out, DrawCommand::MoveTo(0, y));
    emit(out, DrawCommand::Foreground(foreground));
    emit(out, DrawCommand::Background(background));
    let ghost head = commands_view(out@);
    assert(head =~= commands_view(old(out)@) + seq![
        CommandView::MoveTo(0, y),
        CommandView::Foreground(foreground),
        CommandView::Background(background),
    ]);
    let sorted = sort_fragments(row);
    let n = sorted.len();
    let mut cursor: usize = 0;
    let ghost sv = fragments_view(sorted@);
    assert(sv.take(0) == Seq::<FragmentView>::empty());
    for i in 0..n
        invariant
            n == sorted@.len(),
            sv == fragments_view(sorted@),
            cursor <= width,
            row_ops(sv.take(i as int), width as nat, foreground, background) == (
                commands_view(out@).skip(head.len() as int),
                cursor as nat,
            ),
            commands_view(out@).len() >= head.len(),
            commands_view(out@).take(head.len() as int) == head,
    {
        let ghost before = commands_view(out@);
        let ghost t = sv.take(i + 1);
        assert(t.drop_last() == sv.take(i as int));
        assert(t.last() == sorted@[i as int]@);
        let f = &sorted[i];
        let x = f.x as usize;
        if x < width {
            if x > cursor {
                emit(out, DrawCommand::Print(blanks(x - cursor)));
                cursor = x;
            }
            emit(out, DrawCommand::Foreground(f.foreground));
            let bg = match f.background {
                Some(b) => b,
                None => background,
            };
            emit(out, DrawCommand::Background(bg));
            emit(out, DrawCommand::Print(f.text.clone()));
            emit(out, DrawCommand::Foreground(foreground));
            emit(out, DrawCommand::Background(background));
            let moved = cursor.saturating_add(f.cell_width);
            cursor = if moved < width {
                moved
            } else {
                width
            };
        }
        assert(commands_view(out@).take(head.len() as int) =~= head);
        assert(commands_view(out@).skip(head.len() as int) =~= before.skip(head.len() as int)
            + commands_view(out@).skip(before.len() as int));
    }
    assert(sv.take(n as int) == sv);
    let ghost ops = commands_view(out@).skip(head.len() as int);
    assert(commands_view(out@) =~= head + ops);
    assert(row_ops(sv, width as nat, foreground, background) == (ops, cursor as nat));
    if cursor < width {
        emit(out, DrawCommand::Print(blanks(width - cursor)));
    }
    assert(commands_view(out@) =~= commands_view(old(out)@) + row_commands(
        y,
        fragments_view(row@),
        width as nat,
        foreground,
        background,
    ));
}

/// The drawing steps for a frame, in the frame colours.
pub fn draw_frame(
    frame: &Vec<Vec<TextFragment>>,
    terminal_width: u16,
    background: TermColor,
    foreground: TermColor,
) -> (out: Vec<DrawCommand>)
    ensures
        commands_view(out@) == frame_commands(
            frame_view(frame@),
            terminal_width as nat,
            foreground,
            background,
        ),
{
    let width = terminal_width as usize;
    let mut out: Vec<DrawCommand> = Vec::new();
    let n = frame.len();
    for y in 0..n
        invariant
            n == frame@.len(),
            width == terminal_width as usize,
            commands_view(out@) == rows_commands(
                frame_view(frame@),
                y as nat,
                width as nat,
                foreground,
                background,
            ),
    {
        assert(frame_view(frame@)[y as int] == fragments_view(frame@[y as int]@));
        draw_row(&mut out, y as u16, &frame[y], width, background, foreground);
    }
    emit(&mut out, DrawCommand::ResetColor);
    out
}

/// The drawing steps for the clock screen: the calendar lines for the
/// terminal width, the frame for the time in the foreground colour of flash
/// phase `fg_phase`, drawn over the background colour of flash phase
/// `bg_phase`.
pub open spec fn clock_screen(
    time: Seq<char>,
    terminal_width: u16,
    terminal_height: u16,
    calendar: CalendarView,
    active: Option<CandidateView>,
    now: LocalDateTime,
    kitty: bool,
    fg_phase: u128,
    bg_phase: u128,
) -> Seq<CommandView> {
    let foreground = foreground_for(active is Some, fg_phase);
    let background = background_for(active is Some, bg_phase);
    let lines = schedule_lines(calendar, now, terminal_width as nat);
    frame_commands(
        clock_frame(time, terminal_width, terminal_height, lines, active, foreground, kitty),
        terminal_width as nat,
        foreground,
        background,
    )
}

/// The drawing steps for the clock screen at `now`, in the colours of the
/// alert's current flash phase.
pub fn draw_clock(
    time: &str,
    terminal_width: u16,
    terminal_height: u16,
    calendar: &CalendarState,
    alert: &AlertState,
    now: &LocalDateTime,
    kitty: bool,
) -> (out: Vec<DrawCommand>)
    requires
        time@.len() * 6 <= usize::MAX,
    ensures
        exists|fg_phase: u128, bg_phase: u128|
            commands_view(out@) == #[trigger] clock_screen(
                time@,
                terminal_width,
                terminal_height,
                calendar@,
                alert@.active,
                *now,
                kitty,
                fg_phase,
                bg_phase,
            ),
{
    let lines = calendar.render_lines(now, terminal_width as usize);
    let background = alert.background_color();
    let foreground = alert.foreground_color();
    let ghost fg_phase = choose|p: u128| foreground == #[trigger] foreground_for(alert@.active is Some, p);
    let ghost bg_phase = choose|p: u128| background == #[trigger] background_for(alert@.active is Some, p);
    let frame = compose_frame(
        time,
        terminal_width,
        terminal_height,
        &lines,
        alert,
        foreground,
        kitty,
    );
    let out = draw_frame(&frame, terminal_width, background, foreground);
    assert(commands_view(out@) == clock_screen(
        time@,
        terminal_width,
        terminal_height,
        calendar@,
        alert@.active,
        *now,
        kitty,
        fg_phase,
        bg_phase,
    ));
    out
}

/// Drawing law: while a row is drawn the cursor never passes the right
/// edge, so the blanks that end the row are never negative.
pub proof fn row_cursor_stays_on_screen(
    frags: Seq<FragmentView>,
    width: nat,
    foreground: TermColor,
    background: TermColor,
)
    ensures
        row_ops(frags, width, foreground, background).1 <= width,
    decreases frags.len(),
{
    if frags.len() > 0 {
        row_cursor_stays_on_screen(frags.drop_last(), width, foreground, background);
    }
}

proof fn lemma_schedule_lines_keep_rows(
    frame: Seq<Seq<FragmentView>>,
    lines: Seq<Seq<char>>,
    count: nat,
    terminal_width: u16,
    start_y: u16,
    ts: nat,
    available: nat,
    kitty: bool,
)
    ensures
        with_schedule_lines(frame, lines, count, terminal_width, start_y, ts, available, kitty).len()
            == frame.len(),
    decreases count,
{
    if count > 0 {
        lemma_schedule_lines_keep_rows(
            frame,
            lines,
            (count - 1) as nat,
            terminal_width,
            start_y,
            ts,
            available,
            kitty,
        );
    }
}

proof fn lemma_digit_rows_keep_rows(
    frame: Seq<Seq<FragmentView>>,
    rows: Seq<Seq<char>>,
    count: nat,
    digit_x: u16,
    digit_y: u16,
    foreground: TermColor,
)
    ensures
        with_digit_rows(frame, rows, count, digit_x, digit_y, foreground).len() == frame.len(),
    decreases count,
{
    if count > 0 {
        lemma_digit_rows_keep_rows(frame, rows, (count - 1) as nat, digit_x, digit_y, foreground);
    }
}

/// Frame law: the screen has exactly one row per terminal row.
pub proof fn clock_frame_fills_the_terminal(
    time: Seq<char>,
    terminal_width: u16,
    terminal_height: u16,
    schedule: Seq<Seq<char>>,
    active: Option<CandidateView>,
    foreground: TermColor,
    kitty: bool,
)
    ensures
        clock_frame(time, terminal_width, terminal_height, schedule, active, foreground, kitty).len()
            == terminal_height,
{
    let scale = crate::layout::chosen_scale(
        time,
        terminal_width as int,
        terminal_height as int,
        schedule.len() as int,
        active is Some,
        kitty,
    );
    let rows = crate::digits::rendered(time, scale as nat);
    let empty = empty_frame(terminal_height as nat);
    match crate::layout::layout_for(
        max_len(rows) as int,
        rows.len() as int,
        scale,
        schedule.len() as int,
        terminal_width as int,
        terminal_height as int,
        active is Some,
        kitty,
    ) {
        None => {
            let f = if kitty {
                with_kitty_time(empty, time, terminal_width, terminal_height)
            } else {
                with_compact_time(empty, time, terminal_width, terminal_height)
            };
            let y = crate::layout::minus(
                terminal_height as int,
                (schedule.len() as u16) + crate::layout::reserved_rows(active is Some),
            ) as u16;
            let by_scale = terminal_width as nat / 1;
            let available: nat = if by_scale > 1 {
                by_scale
            } else {
                1
            };
            lemma_schedule_lines_keep_rows(
                f,
                schedule,
                schedule.len(),
                terminal_width,
                y,
                1,
                available,
                kitty,
            );
        },
        Some((x, y, sy, t)) => {
            lemma_digit_rows_keep_rows(empty, rows, rows.len(), x as u16, y as u16, foreground);
            let f = with_digit_rows(empty, rows, rows.len(), x as u16, y as u16, foreground);
            let tsn: nat = if t as nat > 1 {
                t as nat
            } else {
                1
            };
            let by_scale = terminal_width as nat / tsn;
            let available: nat = if by_scale > 1 {
                by_scale
            } else {
                1
            };
            lemma_schedule_lines_keep_rows(
                f,
                schedule,
                schedule.len(),
                terminal_width,
                sy as u16,
                tsn,
                available,
                kitty,
            );
        },
    }
}

/// The cursor positions that drawing steps move to, in order.
pub open spec fn cursor_moves(cmds: Seq<CommandView>) -> Seq<(u16, u16)>
    decreases cmds.len(),
{
    if cmds.len() == 0 {
        seq![]
    } else {
        let rest = cursor_moves(cmds.drop_last());
        match cmds.last() {
            CommandView::MoveTo(x, y) => rest.push((x, y)),
            _ => rest,
        }
    }
}

proof fn lemma_cursor_moves_concat(a: Seq<CommandView>, b: Seq<CommandView>)
    ensures
        cursor_moves(a + b) == cursor_moves(a) + cursor_moves(b),
    decreases b.len(),
{
    if b.len() == 0 {
        assert(a + b =~= a);
        assert(cursor_moves(a) + cursor_moves(b) =~= cursor_moves(a));
    } else {
        assert((a + b).drop_last() =~= a + b.drop_last());
        assert((a + b).last() == b.last());
        lemma_cursor_moves_concat(a, b.drop_last());
        match b.last() {
            CommandView::MoveTo(x, y) => {
                assert(cursor_moves(a) + cursor_moves(b) =~= (cursor_moves(a) + cursor_moves(
                    b.drop_last(),
                )).push((x, y)));
            },
            _ => {},
        }
    }
}

proof fn lemma_cursor_moves_none(cmds: Seq<CommandView>)
    requires
        forall|i: int| 0 <= i < cmds.len() ==> !((#[trigger] cmds[i]) is MoveTo),
    ensures
        cursor_moves(cmds) == Seq::<(u16, u16)>::empty(),
    decreases cmds.len(),
{
    if cmds.len() > 0 {
        assert forall|i: int| 0 <= i < cmds.drop_last().len() implies !((
        #[trigger] cmds.drop_last()[i]) is MoveTo) by {
            assert(cmds.drop_last()[i] == cmds[i]);
        }
        lemma_cursor_moves_none(cmds.drop_last());
        assert(!(cmds[cmds.len() - 1] is MoveTo));
    }
}

proof fn lemma_row_ops_stay_on_row(
    frags: Seq<FragmentView>,
    width: nat,
    foreground: TermColor,
    background: TermColor,
)
    ensures
        cursor_moves(row_ops(frags, width, foreground, background).0) == Seq::<
            (u16, u16),
        >::empty(),
    decreases frags.len(),
{
    if frags.len() > 0 {
        lemma_row_ops_stay_on_row(frags.drop_last(), width, foreground, background);
        let (ops, cursor) = row_ops(frags.drop_last(), width, foreground, background);
        let (more, next) = fragment_ops(cursor, frags.last(), width, foreground, background);
        lemma_cursor_moves_none(more);
        lemma_cursor_moves_concat(ops, more);
    }
}

proof fn lemma_row_moves_once(
    y: u16,
    row: Seq<FragmentView>,
    width: nat,
    foreground: TermColor,
    background: TermColor,
)
    ensures
        cursor_moves(row_commands(y, row, width, foreground, background)) == seq![(0u16, y)],
{
    let (ops, cursor) = row_ops(sorted_by_x(row), width, foreground, background);
    let head = seq![
        CommandView::MoveTo(0, y),
        CommandView::Foreground(foreground),
        CommandView::Background(background),
    ];
    let tail = if cursor < width {
        seq![CommandView::Print(crate::text::repeat_seq(' ', (width - cursor) as nat))]
    } else {
        seq![]
    };
    lemma_row_ops_stay_on_row(sorted_by_x(row), width, foreground, background);
    lemma_cursor_moves_concat(head, ops);
    lemma_cursor_moves_concat(head + ops, tail);
    lemma_cursor_moves_none(tail);
    let first = seq![CommandView::MoveTo(0, y)];
    let colours = seq![CommandView::Foreground(foreground), CommandView::Background(background)];
    assert(head =~= first + colours);
    lemma_cursor_moves_concat(first, colours);
    lemma_cursor_moves_none(colours);
    assert(first.drop_last() =~= Seq::<CommandView>::empty());
    assert(cursor_moves(first.drop_last()) =~= Seq::<(u16, u16)>::empty());
    assert(cursor_moves(first) =~= seq![(0u16, y)]);
    assert(cursor_moves(head) =~= seq![(0u16, y)]);
}

proof fn lemma_rows_move_in_order(
    frame: Seq<Seq<FragmentView>>,
    count: nat,
    width: nat,
    foreground: TermColor,
    background: TermColor,
)
    requires
        count <= 65536,
    ensures
        cursor_moves(rows_commands(frame, count, width, foreground, background)) == Seq::new(
            count,
            |y: int| (0u16, y as u16),
        ),
    decreases count,
{
    if count > 0 {
        lemma_rows_move_in_order(frame, (count - 1) as nat, width, foreground, background);
        lemma_cursor_moves_concat(
            rows_commands(frame, (count - 1) as nat, width, foreground, background),
            row_commands((count - 1) as u16, frame[count - 1], width, foreground, background),
        );
        lemma_row_moves_once((count - 1) as u16, frame[count - 1], width, foreground, background);
        assert(Seq::new(count, |y: int| (0u16, y as u16)) =~= Seq::new(
            (count - 1) as nat,
            |y: int| (0u16, y as u16),
        ).push((0u16, (count - 1) as u16)));
    } else {
        assert(Seq::new(count, |y: int| (0u16, y as u16)) =~= Seq::<(u16, u16)>::empty());
    }
}

/// Row law: drawing a frame moves the cursor exactly once per row, to
/// column 0 of that row, from the top row down; nothing else moves it.
pub proof fn frame_draws_each_row_from_its_left_edge(
    frame: Seq<Seq<FragmentView>>,
    width: nat,
    foreground: TermColor,
    background: TermColor,
)
    requires
        frame.len() <= 65536,
    ensures
        cursor_moves(frame_commands(frame, width, foreground, background)) == Seq::new(
            frame.len(),
            |y: int| (0u16, y as u16),
        ),
{
    lemma_rows_move_in_order(frame, frame.len(), width, foreground, background);
    lemma_cursor_moves_concat(
        rows_commands(frame, frame.len(), width, foreground, background),
        seq![CommandView::ResetColor],
    );
    lemma_cursor_moves_none(seq![CommandView::ResetColor]);
}

} // verus!
