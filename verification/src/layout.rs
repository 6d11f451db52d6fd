//! Where the big clock and the calendar lines go on the screen, and how far
//! the clock is scaled up.

use vstd::prelude::*;

use crate::alert::AlertState;
use crate::digits::{base_clock_width, base_width, DIGIT_GAP, DIGIT_HEIGHT, DIGIT_WIDTH};

verus! {

/// Blank columns kept on each side of the clock, before scaling.
pub const MIN_MARGIN: usize = 1;

/// The largest scale the big clock is drawn at.
pub const MAX_CLOCK_SCALE: usize = 12;

/// `a - b`, or zero when `b` is larger (saturating subtraction).
pub open spec fn minus(a: int, b: int) -> nat {
    if a >= b {
        (a - b) as nat
    } else {
        0
    }
}

/// `x` kept within `lo..=hi`.
pub open spec fn clamped(x: int, lo: int, hi: int) -> int {
    if x < lo {
        lo
    } else if x > hi {
        hi
    } else {
        x
    }
}

/// Rows kept free at the bottom: three while an alert is up (its message
/// and a blank row), else one.
pub open spec fn reserved_rows(alert_active: bool) -> nat {
    if alert_active {
        3
    } else {
        1
    }
}

/// Rows left for the clock and the calendar lines.
pub open spec fn usable_height(terminal_height: int, alert_active: bool) -> nat {
    minus(terminal_height, reserved_rows(alert_active) as int)
}

/// Blank rows between the clock and the calendar lines.
pub open spec fn gap_rows(scale: int) -> int {
    clamped(scale, 1, 3) + 1
}

/// How far the calendar text is scaled: only kitty scales text, to half the
/// clock scale rounded up, within `1..=4`.
pub open spec fn text_scale_for(clock_scale: int, kitty: bool) -> int {
    if !kitty {
        1
    } else {
        clamped((clock_scale + 1) / 2, 1, 4)
    }
}

/// Rows the calendar lines take below the clock, gap included.
pub open spec fn schedule_rows(line_count: int, clock_scale: int, text_scale: int) -> int {
    if line_count == 0 {
        0
    } else {
        gap_rows(clock_scale) + line_count * text_scale
    }
}

/// Rows left for the clock for terminal height `terminal_height`.
pub fn usable_content_height(terminal_height: usize, alert: &AlertState) -> (h: usize)
    ensures
        h == usable_height(terminal_height as int, alert@.active is Some),
{
    let alert_reserved: usize = if alert.is_active() {
        3
    } else {
        1
    };
    terminal_height.saturating_sub(alert_reserved)
}

/// First row of the calendar lines when the clock is shown as plain text:
/// just above the rows kept free at the bottom.
pub fn compact_schedule_y(line_count: usize, terminal_height: u16, alert: &AlertState) -> (y: u16)
    requires
        (line_count as u16) + 3 <= u16::MAX,
    ensures
        y == minus(
            terminal_height as int,
            (line_count as u16) + reserved_rows(alert@.active is Some),
        ),
{
    let alert_reserved: u16 = if alert.is_active() {
        3
    } else {
        1
    };
    terminal_height.saturating_sub(line_count as u16 + alert_reserved)
}

/// Blank rows between the clock and the calendar lines at `scale`.
pub fn schedule_gap(scale: usize) -> (g: usize)
    ensures
        g == gap_rows(scale as int),
{
    clamp_usize(scale, 1, 3) + 1
}

/// `x` kept within `lo..=hi`.
fn clamp_usize(x: usize, lo: usize, hi: usize) -> (r: usize)
    requires
        lo <= hi,
    ensures
        r == clamped(x as int, lo as int, hi as int),
{
    if x < lo {
        lo
    } else if x > hi {
        hi
    } else {
        x
    }
}

/// How far the calendar text is scaled for clock scale `clock_scale`.
pub fn schedule_text_scale(clock_scale: usize, kitty: bool) -> (s: usize)
    ensures
        s == text_scale_for(clock_scale as int, kitty),
        1 <= s <= 4,
{
    if !kitty {
        return 1;
    }
    let half = clock_scale / 2 + clock_scale % 2;
    assert(half == (clock_scale + 1) / 2);
    clamp_usize(half, 1, 4)
}

/// Rows the calendar lines take below the clock, gap included.
pub fn schedule_block_height(line_count: usize, clock_scale: usize, text_scale: usize) -> (h: usize)
    requires
        line_count == 0 || gap_rows(clock_scale as int) + line_count * text_scale <= usize::MAX,
    ensures
        h == schedule_rows(line_count as int, clock_scale as int, text_scale as int),
{
    if line_count == 0 {
        0
    } else {
        schedule_gap(clock_scale) + line_count * text_scale
    }
}

/// Where the clock and the calendar lines go.
pub struct ClockLayout {
    pub digit_x: u16,
    pub digit_y: u16,
    pub schedule_y: u16,
    pub schedule_text_scale: usize,
}

/// The layout of a clock `content_width` by `content_height` cells at
/// `scale` with `line_count` calendar lines, centered in the rows left
/// free; none when it does not fit.
pub open spec fn layout_for(
    content_width: int,
    content_height: int,
    scale: int,
    line_count: int,
    terminal_width: int,
    terminal_height: int,
    alert_active: bool,
    kitty: bool,
) -> Option<(int, int, int, int)> {
    let usable = usable_height(terminal_height, alert_active);
    let ts = text_scale_for(scale, kitty);
    let block = content_height + schedule_rows(line_count, scale, ts);
    if content_width > terminal_width || block > usable {
        None
    } else {
        let digit_x = (terminal_width - content_width) / 2;
        let digit_y = (usable - block) / 2;
        let schedule_y = if line_count == 0 {
            0
        } else {
            digit_y + content_height + gap_rows(scale)
        };
        Some((digit_x, digit_y, schedule_y, ts))
    }
}

/// Lays the clock out in the terminal, or gives `None` when it does not fit
/// (the caller then shows the time as plain text).
pub fn clock_layout(
    content_width: usize,
    content_height: usize,
    scale: usize,
    schedule_line_count: usize,
    terminal_width: u16,
    terminal_height: u16,
    alert: &AlertState,
    kitty: bool,
) -> (r: Option<ClockLayout>)
    requires
        content_height + schedule_rows(
            schedule_line_count as int,
            scale as int,
            text_scale_for(scale as int, kitty),
        ) <= usize::MAX,
    ensures
        match layout_for(
            content_width as int,
            content_height as int,
            scale as int,
            schedule_line_count as int,
            terminal_width as int,
            terminal_height as int,
            alert@.active is Some,
            kitty,
        ) {
            Some((x, y, sy, ts)) => r matches Some(l) && l.digit_x == x && l.digit_y == y
                && l.schedule_y == sy && l.schedule_text_scale == ts,
            None => r is None,
        },
{
    let usable_height = usable_content_height(terminal_height as usize, alert);
    let schedule_text_scale = schedule_text_scale(scale, kitty);
    let block_height = content_height + schedule_block_height(
        schedule_line_count,
        scale,
        schedule_text_scale,
    );
    if content_width > terminal_width as usize || block_height > usable_height {
        return None;
    }
    let digit_x = ((terminal_width as usize - content_width) / 2) as u16;
    let digit_y = ((usable_height - block_height) / 2) as u16;
    let schedule_y = if schedule_line_count == 0 {
        0
    } else {
        proof {
            assert(schedule_line_count * schedule_text_scale >= 0) by (nonlinear_arith);
        }
        digit_y + content_height as u16 + schedule_gap(scale) as u16
    };
    Some(ClockLayout { digit_x, digit_y, schedule_y, schedule_text_scale })
}

/// Whether the clock at `scale`, with its calendar lines, fits the width
/// and height available.
pub open spec fn scale_fits(
    scale: int,
    base: int,
    available_width: int,
    available_height: int,
    line_count: int,
    kitty: bool,
) -> bool {
    &&& base * scale <= available_width
    &&& DIGIT_HEIGHT * scale + schedule_rows(line_count, scale, text_scale_for(scale, kitty))
        <= available_height
}

/// The largest scale in `1..=k` that fits, or 1 when none does.
pub open spec fn best_scale(
    k: int,
    base: int,
    available_width: int,
    available_height: int,
    line_count: int,
    kitty: bool,
) -> int
    decreases k,
{
    if k <= 0 {
        1
    } else if scale_fits(k, base, available_width, available_height, line_count, kitty) {
        k
    } else {
        best_scale(k - 1, base, available_width, available_height, line_count, kitty)
    }
}

/// The largest scale worth trying: what the width and the height allow,
/// at most `MAX_CLOCK_SCALE`, at least 1.
pub open spec fn scale_limit(base: int, available_width: int, available_height: int) -> int {
    let by_width = available_width / (if base > 1 {
        base
    } else {
        1
    });
    let by_height = available_height / (DIGIT_HEIGHT as int);
    let m = if by_width < by_height {
        by_width
    } else {
        by_height
    };
    let m = if m < MAX_CLOCK_SCALE {
        m
    } else {
        MAX_CLOCK_SCALE as int
    };
    if m < 1 {
        1
    } else {
        m
    }
}

/// The scale the clock is drawn at for `time` in a terminal of the given
/// size with `line_count` calendar lines.
pub open spec fn chosen_scale(
    time: Seq<char>,
    terminal_width: int,
    terminal_height: int,
    line_count: int,
    alert_active: bool,
    kitty: bool,
) -> int {
    let base = base_width(time) as int;
    let available_width = minus(terminal_width, 4 * MIN_MARGIN) as int;
    let available_height = minus(usable_height(terminal_height, alert_active) as int, MIN_MARGIN as int) as int;
    best_scale(
        scale_limit(base, available_width, available_height),
        base,
        available_width,
        available_height,
        line_count,
        kitty,
    )
}

/// The largest scale, up to `MAX_CLOCK_SCALE`, at which the clock and its
/// calendar lines fit the terminal with margins; 1 when none does.
pub fn clock_scale(
    time: &str,
    terminal_width: usize,
    terminal_height: usize,
    schedule_line_count: usize,
    alert: &AlertState,
    kitty: bool,
) -> (scale: usize)
    requires
        time@.len() * (DIGIT_WIDTH + DIGIT_GAP) <= usize::MAX,
        schedule_line_count * 4 + 100 <= usize::MAX,
    ensures
        scale == chosen_scale(
            time@,
            terminal_width as int,
            terminal_height as int,
            schedule_line_count as int,
            alert@.active is Some,
            kitty,
        ),
{
    let base_width = base_clock_width(time);
    let available_width = terminal_width.saturating_sub(MIN_MARGIN * 4);
    let available_height = usable_content_height(terminal_height, alert).saturating_sub(
        MIN_MARGIN,
    );
    let divisor = if base_width > 1 {
        base_width
    } else {
        1
    };
    let by_width = available_width / divisor;
    let by_height = available_height / DIGIT_HEIGHT;
    let mut max_scale = if by_width < by_height {
        by_width
    } else {
        by_height
    };
    if max_scale > MAX_CLOCK_SCALE {
        max_scale = MAX_CLOCK_SCALE;
    }
    if max_scale < 1 {
        max_scale = 1;
    }
    let ghost limit = max_scale as int;
    let ghost avw = available_width as int;
    let ghost avh = available_height as int;
    assert(limit == scale_limit(base_width as int, avw, avh));
    let mut k = max_scale;
    while k >= 1
        invariant
            k <= limit <= MAX_CLOCK_SCALE,
            1 <= limit,
            limit <= by_width || limit == 1,
            by_width == available_width / divisor,
            divisor >= 1,
            base_width <= divisor,
            base_width == crate::digits::base_width(time@),
            avw == available_width,
            avh == available_height,
            available_width == minus(terminal_width as int, 4 * MIN_MARGIN),
            available_height == minus(
                usable_height(terminal_height as int, alert@.active is Some) as int,
                MIN_MARGIN as int,
            ),
            limit == scale_limit(base_width as int, avw, avh),
            schedule_line_count * 4 + 100 <= usize::MAX,
            best_scale(
                limit,
                base_width as int,
                available_width as int,
                available_height as int,
                schedule_line_count as int,
                kitty,
            ) == best_scale(
                k as int,
                base_width as int,
                available_width as int,
                available_height as int,
                schedule_line_count as int,
                kitty,
            ),
        decreases k,
    {
        assert(base_width * k <= usize::MAX) by (nonlinear_arith)
            requires
                k <= by_width || k == 1,
                by_width == available_width / divisor,
                divisor >= 1,
                base_width <= divisor,
                available_width <= usize::MAX,
                base_width <= usize::MAX,
        {
            if k != 1 {
                assert(k * divisor <= available_width);
            }
        }
        let text_scale = schedule_text_scale(k, kitty);
        assert(schedule_line_count * text_scale <= schedule_line_count * 4) by (nonlinear_arith)
            requires
                text_scale <= 4,
        {
        }
        let wide = base_width * k;
        let block_height = DIGIT_HEIGHT * k + schedule_block_height(
            schedule_line_count,
            k,
            text_scale,
        );
        if wide <= available_width && block_height <= available_height {
            return k;
        }
        k = k - 1;
    }
    1
}

/// Layout law: a clock that is laid out fits the terminal across, and the
/// clock with its calendar lines fits, centered, in the rows left free.
pub proof fn laid_out_clock_fits(
    content_width: int,
    content_height: int,
    scale: int,
    line_count: int,
    terminal_width: int,
    terminal_height: int,
    alert_active: bool,
    kitty: bool,
)
    requires
        0 <= content_width,
        0 <= content_height,
        0 <= line_count,
        0 <= terminal_width,
        layout_for(
            content_width,
            content_height,
            scale,
            line_count,
            terminal_width,
            terminal_height,
            alert_active,
            kitty,
        ) is Some,
    ensures
        ({
            let (x, y, sy, ts) = layout_for(
                content_width,
                content_height,
                scale,
                line_count,
                terminal_width,
                terminal_height,
                alert_active,
                kitty,
            ).unwrap();
            &&& x + content_width <= terminal_width
            &&& x <= terminal_width - content_width - x
            &&& 2 * y + content_height + schedule_rows(line_count, scale, ts) <= usable_height(
                terminal_height,
                alert_active,
            )
            &&& line_count > 0 ==> sy + line_count * ts <= usable_height(
                terminal_height,
                alert_active,
            )
        }),
{
    let ts = text_scale_for(scale, kitty);
    assert(line_count * ts >= 0) by (nonlinear_arith)
        requires
            line_count >= 0,
            ts >= 1,
    ;
}

/// Scale law: the clock scale is between 1 and `MAX_CLOCK_SCALE`, fits when
/// it is above 1, and no larger scale up to the limit fits.
pub proof fn chosen_scale_is_largest_fit(
    k: int,
    base: int,
    available_width: int,
    available_height: int,
    line_count: int,
    kitty: bool,
)
    requires
        1 <= k <= MAX_CLOCK_SCALE,
    ensures
        1 <= best_scale(k, base, available_width, available_height, line_count, kitty) <= k,
        best_scale(k, base, available_width, available_height, line_count, kitty) > 1
            ==> scale_fits(
            best_scale(k, base, available_width, available_height, line_count, kitty),
            base,
            available_width,
            available_height,
            line_count,
            kitty,
        ),
        forall|j: int|
            best_scale(k, base, available_width, available_height, line_count, kitty) < j <= k
                ==> !#[trigger] scale_fits(
                j,
                base,
                available_width,
                available_height,
                line_count,
                kitty,
            ),
    decreases k,
{
    if !scale_fits(k, base, available_width, available_height, line_count, kitty) {
        if k > 1 {
            chosen_scale_is_largest_fit(
                k - 1,
                base,
                available_width,
                available_height,
                line_count,
                kitty,
            );
        } else {
            assert(best_scale(0, base, available_width, available_height, line_count, kitty) == 1);
        }
    }
}

/// A scale that fits some room fits any room at least as wide and as high.
proof fn lemma_fits_in_more_room(
    scale: int,
    base: int,
    w1: int,
    h1: int,
    w2: int,
    h2: int,
    line_count: int,
    kitty: bool,
)
    requires
        w1 <= w2,
        h1 <= h2,
        scale_fits(scale, base, w1, h1, line_count, kitty),
    ensures
        scale_fits(scale, base, w2, h2, line_count, kitty),
{
}

/// More room never lowers the largest scale worth trying.
proof fn lemma_limit_grows(base: int, w1: int, h1: int, w2: int, h2: int)
    requires
        0 <= w1 <= w2,
        0 <= h1 <= h2,
    ensures
        scale_limit(base, w1, h1) <= scale_limit(base, w2, h2),
{
    let d: int = if base > 1 {
        base
    } else {
        1
    };
    vstd::arithmetic::div_mod::lemma_div_is_ordered(w1, w2, d);
    vstd::arithmetic::div_mod::lemma_div_is_ordered(h1, h2, DIGIT_HEIGHT as int);
}

/// Growth law: the clock never gets smaller when the terminal gets wider or
/// taller, and an alert (which keeps two more rows free) never makes it
/// larger.
pub proof fn clock_scale_grows_with_room(
    time: Seq<char>,
    w1: int,
    h1: int,
    w2: int,
    h2: int,
    line_count: int,
    alert_active: bool,
    kitty: bool,
)
    requires
        w1 <= w2,
        h1 <= h2,
    ensures
        chosen_scale(time, w1, h1, line_count, alert_active, kitty) <= chosen_scale(
            time,
            w2,
            h2,
            line_count,
            alert_active,
            kitty,
        ),
        chosen_scale(time, w1, h1, line_count, true, kitty) <= chosen_scale(
            time,
            w1,
            h1,
            line_count,
            false,
            kitty,
        ),
{
    let base = base_width(time) as int;
    let aw1 = minus(w1, 4 * MIN_MARGIN) as int;
    let aw2 = minus(w2, 4 * MIN_MARGIN) as int;
    let ah1 = minus(usable_height(h1, alert_active) as int, MIN_MARGIN as int) as int;
    let ah2 = minus(usable_height(h2, alert_active) as int, MIN_MARGIN as int) as int;
    lemma_scale_grows(base, aw1, ah1, aw2, ah2, line_count, kitty);
    let on = minus(usable_height(h1, true) as int, MIN_MARGIN as int) as int;
    let off = minus(usable_height(h1, false) as int, MIN_MARGIN as int) as int;
    lemma_scale_grows(base, aw1, on, aw1, off, line_count, kitty);
}

/// The scale chosen for some room is at most the one chosen for more room.
proof fn lemma_scale_grows(
    base: int,
    w1: int,
    h1: int,
    w2: int,
    h2: int,
    line_count: int,
    kitty: bool,
)
    requires
        0 <= w1 <= w2,
        0 <= h1 <= h2,
    ensures
        best_scale(scale_limit(base, w1, h1), base, w1, h1, line_count, kitty) <= best_scale(
            scale_limit(base, w2, h2),
            base,
            w2,
            h2,
            line_count,
            kitty,
        ),
{
    let k1 = scale_limit(base, w1, h1);
    let k2 = scale_limit(base, w2, h2);
    lemma_limit_grows(base, w1, h1, w2, h2);
    chosen_scale_is_largest_fit(k1, base, w1, h1, line_count, kitty);
    chosen_scale_is_largest_fit(k2, base, w2, h2, line_count, kitty);
    let b1 = best_scale(k1, base, w1, h1, line_count, kitty);
    let b2 = best_scale(k2, base, w2, h2, line_count, kitty);
    if b1 > 1 {
        lemma_fits_in_more_room(b1, base, w1, h1, w2, h2, line_count, kitty);
        if b2 < b1 {
            assert(!scale_fits(b1, base, w2, h2, line_count, kitty));
        }
    }
}

} // verus!
