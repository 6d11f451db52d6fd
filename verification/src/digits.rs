//! The seven-segment style glyphs of the big clock and their rendering into
//! rows of block characters.

use vstd::prelude::*;

use crate::text::{chars_of, push_repeat, repeat_seq};

verus! {

/// Rows in a glyph.
pub const DIGIT_HEIGHT: usize = 7;

/// Columns in a digit glyph.
pub const DIGIT_WIDTH: usize = 5;

/// Blank columns between neighbouring glyphs, before scaling.
pub const DIGIT_GAP: usize = 1;

/// Index of the colon glyph; glyphs `0..=9` are the digits.
pub const COLON_GLYPH: usize = 10;

/// The lit columns of each glyph row, as a bit mask: in a glyph `w` columns
/// wide, bit `w - 1 - c` lights column `c`.
///
/// ```text
/// 0      1      2      3      4      5      6      7      8      9      :
/// #####    #    #####  #####  #   #  #####  #####  #####  #####  #####
/// #   #   ##        #      #  #   #  #      #          #  #   #  #   #  #
/// #   #    #        #      #  #   #  #      #          #  #   #  #   #  #
/// #   #    #    #####  #####  #####  #####  #####     #   #####  #####
/// #   #    #    #          #      #      #  #   #    #    #   #      #  #
/// #   #    #    #          #      #      #  #   #   #     #   #      #  #
/// #####  #####  #####  #####      #  #####  #####  #      #####  #####
/// ```
pub open spec fn glyph_rows(glyph: int) -> Seq<u8> {
    if glyph == 0 {
        seq![31, 17, 17, 17, 17, 17, 31]
    } else if glyph == 1 {
        seq![4, 12, 4, 4, 4, 4, 31]
    } else if glyph == 2 {
        seq![31, 1, 1, 31, 16, 16, 31]
    } else if glyph == 3 {
        seq![31, 1, 1, 31, 1, 1, 31]
    } else if glyph == 4 {
        seq![17, 17, 17, 31, 1, 1, 1]
    } else if glyph == 5 {
        seq![31, 16, 16, 31, 1, 1, 31]
    } else if glyph == 6 {
        seq![31, 16, 16, 31, 17, 17, 31]
    } else if glyph == 7 {
        seq![31, 1, 1, 2, 4, 8, 16]
    } else if glyph == 8 {
        seq![31, 17, 17, 31, 17, 17, 31]
    } else if glyph == 9 {
        seq![31, 17, 17, 31, 1, 1, 31]
    } else {
        seq![0, 1, 1, 0, 1, 1, 0]
    }
}

/// Columns in a glyph: the colon is one column wide, the digits five.
pub open spec fn glyph_width(glyph: int) -> nat {
    if glyph == COLON_GLYPH {
        1
    } else {
        DIGIT_WIDTH as nat
    }
}

/// Whether column `col` of a row mask `width` columns wide is lit.
pub open spec fn is_lit(bits: u8, width: nat, col: nat) -> bool {
    (bits >> ((width - 1 - col) as u8)) & 1u8 == 1u8
}

/// The character drawn for a lit or an unlit cell.
pub open spec fn pixel(lit: bool) -> char {
    if lit {
        '\u{2588}'
    } else {
        ' '
    }
}

/// The first `count` columns of a row mask, each drawn `scale` times.
pub open spec fn expand_cols(bits: u8, width: nat, count: nat, scale: nat) -> Seq<char>
    decreases count,
{
    if count == 0 {
        seq![]
    } else {
        expand_cols(bits, width, (count - 1) as nat, scale) + repeat_seq(
            pixel(is_lit(bits, width, (count - 1) as nat)),
            scale,
        )
    }
}

/// Row `row` of a glyph, each cell drawn `scale` times.
pub open spec fn glyph_row(glyph: int, row: int, scale: nat) -> Seq<char> {
    expand_cols(glyph_rows(glyph)[row], glyph_width(glyph), glyph_width(glyph), scale)
}

/// The glyph drawn for a character: digits and the colon have one, every
/// other character none.
pub open spec fn glyph_of(c: char) -> Option<int> {
    if '0' <= c && c <= '9' {
        Some(c as int - '0' as int)
    } else if c == ':' {
        Some(COLON_GLYPH as int)
    } else {
        None
    }
}

/// Row `row` of the cells a character adds.
pub open spec fn char_strip(c: char, row: int, scale: nat) -> Seq<char> {
    match glyph_of(c) {
        Some(g) => glyph_row(g, row, scale),
        None => seq![],
    }
}

/// Row `row` of a time string: the characters' strips, with a blank gap of
/// `scale` columns between neighbours.
pub open spec fn digit_row(s: Seq<char>, row: int, scale: nat) -> Seq<char>
    decreases s.len(),
{
    if s.len() == 0 {
        seq![]
    } else if s.len() == 1 {
        char_strip(s[0], row, scale)
    } else {
        digit_row(s.drop_last(), row, scale) + repeat_seq(' ', (DIGIT_GAP * scale) as nat)
            + char_strip(s.last(), row, scale)
    }
}

/// The rendered clock: every glyph row repeated `scale` times.
pub open spec fn rendered(s: Seq<char>, scale: nat) -> Seq<Seq<char>> {
    Seq::new(DIGIT_HEIGHT as nat * scale, |i: int| digit_row(s, i / scale as int, scale))
}

/// Columns a character's glyph takes before scaling (any character other
/// than the colon counts as a digit).
pub open spec fn char_base_width(c: char) -> nat {
    if c == ':' {
        1
    } else {
        DIGIT_WIDTH as nat
    }
}

/// Sum of the glyph columns of the characters of `s`.
pub open spec fn glyph_columns(s: Seq<char>) -> nat
    decreases s.len(),
{
    if s.len() == 0 {
        0
    } else {
        glyph_columns(s.drop_last()) + char_base_width(s.last())
    }
}

/// Unscaled width of the clock for a time string: its glyphs plus one gap
/// between each two neighbours.
pub open spec fn base_width(s: Seq<char>) -> nat {
    glyph_columns(s) + if s.len() > 0 {
        ((s.len() - 1) * DIGIT_GAP) as nat
    } else {
        0
    }
}

/// Row `row` of the mask of a glyph.
pub fn glyph_bits(glyph: usize, row: usize) -> (bits: u8)
    requires
        glyph <= COLON_GLYPH,
        row < DIGIT_HEIGHT,
    ensures
        bits == glyph_rows(glyph as int)[row as int],
{
    let rows: [u8; 7] = if glyph == 0 {
        [31, 17, 17, 17, 17, 17, 31]
    } else if glyph == 1 {
        [4, 12, 4, 4, 4, 4, 31]
    } else if glyph == 2 {
        [31, 1, 1, 31, 16, 16, 31]
    } else if glyph == 3 {
        [31, 1, 1, 31, 1, 1, 31]
    } else if glyph == 4 {
        [17, 17, 17, 31, 1, 1, 1]
    } else if glyph == 5 {
        [31, 16, 16, 31, 1, 1, 31]
    } else if glyph == 6 {
        [31, 16, 16, 31, 17, 17, 31]
    } else if glyph == 7 {
        [31, 1, 1, 2, 4, 8, 16]
    } else if glyph == 8 {
        [31, 17, 17, 31, 17, 17, 31]
    } else if glyph == 9 {
        [31, 17, 17, 31, 1, 1, 31]
    } else {
        [0, 1, 1, 0, 1, 1, 0]
    };
    assert(rows@ == glyph_rows(glyph as int));
    rows[row]
}

/// Unscaled width of the clock for `time`.
pub fn base_clock_width(time: &str) -> (w: usize)
    requires
        time@.len() * (DIGIT_WIDTH + DIGIT_GAP) <= usize::MAX,
    ensures
        w == base_width(time@),
{
    let chars = chars_of(time);
    let n = chars.len();
    let mut glyph_width_sum: usize = 0;
    for i in 0..n
        invariant
            n == chars@.len(),
            chars@ == time@,
            n * (DIGIT_WIDTH + DIGIT_GAP) <= usize::MAX,
            glyph_width_sum == glyph_columns(chars@.take(i as int)),
            glyph_width_sum <= i * DIGIT_WIDTH,
    {
        assert(chars@.take(i + 1).drop_last() == chars@.take(i as int));
        assert((i + 1) * DIGIT_WIDTH <= n * (DIGIT_WIDTH + DIGIT_GAP) && (i + 1) * DIGIT_WIDTH
            == i * DIGIT_WIDTH + DIGIT_WIDTH) by (nonlinear_arith)
            requires
                i < n,
        {
        }
        if chars[i] == ':' {
            glyph_width_sum = glyph_width_sum + 1;
        } else {
            glyph_width_sum = glyph_width_sum + DIGIT_WIDTH;
        }
    }
    assert(chars@.take(n as int) == chars@);
    assert(n * DIGIT_WIDTH + n <= n * (DIGIT_WIDTH + DIGIT_GAP)) by (nonlinear_arith);
    let gaps = if n > 0 {
        (n - 1) * DIGIT_GAP
    } else {
        0
    };
    glyph_width_sum + gaps
}

/// Appends, to each of the glyph rows, the matching row of `glyph` with
/// every cell drawn `scale` times.
pub fn append_pattern(rows: &mut Vec<String>, glyph: usize, scale: usize)
    requires
        old(rows)@.len() == DIGIT_HEIGHT,
        glyph <= COLON_GLYPH,
    ensures
        final(rows)@.len() == DIGIT_HEIGHT,
        forall|r: int|
            0 <= r < DIGIT_HEIGHT ==> (#[trigger] final(rows)@[r])@ == old(rows)@[r]@ + glyph_row(
                glyph as int,
                r,
                scale as nat,
            ),
{
    let width: usize = if glyph == COLON_GLYPH {
        1
    } else {
        DIGIT_WIDTH
    };
    for r in 0..DIGIT_HEIGHT
        invariant
            rows@.len() == DIGIT_HEIGHT,
            glyph <= COLON_GLYPH,
            width == glyph_width(glyph as int),
            forall|k: int|
                0 <= k < r ==> (#[trigger] rows@[k])@ == old(rows)@[k]@ + glyph_row(
                    glyph as int,
                    k,
                    scale as nat,
                ),
            forall|k: int| r <= k < DIGIT_HEIGHT ==> #[trigger] rows@[k] == old(rows)@[k],
    {
        let bits = glyph_bits(glyph, r);
        let mut row = rows[r].clone();
        let ghost start = row@;
        for c in 0..width
            invariant
                width == glyph_width(glyph as int),
                bits == glyph_rows(glyph as int)[r as int],
                row@ == start + expand_cols(bits, width as nat, c as nat, scale as nat),
        {
            let lit = (bits >> ((width - 1 - c) as u8)) & 1u8 == 1u8;
            let cell = if lit {
                '\u{2588}'
            } else {
                ' '
            };
            push_repeat(&mut row, cell, scale);
            assert(start + expand_cols(bits, width as nat, (c + 1) as nat, scale as nat) == start
                + expand_cols(bits, width as nat, c as nat, scale as nat) + repeat_seq(
                cell,
                scale as nat,
            ));
        }
        rows.set(r, row);
    }
}

/// Appends `width` blank columns to each row.
pub fn append_gap(rows: &mut Vec<String>, width: usize)
    ensures
        final(rows)@.len() == old(rows)@.len(),
        forall|r: int|
            0 <= r < old(rows)@.len() ==> (#[trigger] final(rows)@[r])@ == old(rows)@[r]@
                + repeat_seq(' ', width as nat),
{
    let n = rows.len();
    for r in 0..n
        invariant
            n == old(rows)@.len(),
            rows@.len() == n,
            forall|k: int|
                0 <= k < r ==> (#[trigger] rows@[k])@ == old(rows)@[k]@ + repeat_seq(
                    ' ',
                    width as nat,
                ),
            forall|k: int| r <= k < n ==> #[trigger] rows@[k] == old(rows)@[k],
    {
        let mut row = rows[r].clone();
        push_repeat(&mut row, ' ', width);
        rows.set(r, row);
    }
}

/// Each row repeated `scale` times in place, so the picture is `scale` times
/// as tall.
pub fn scale_rows(rows: Vec<String>, scale: usize) -> (out: Vec<String>)
    requires
        rows@.len() * scale <= usize::MAX,
    ensures
        out@.len() == rows@.len() * scale,
        forall|i: int| 0 <= i < out@.len() ==> (#[trigger] out@[i])@ == rows@[i / scale as int]@,
{
    let n = rows.len();
    let mut out: Vec<String> = Vec::new();
    assert(0 * scale == 0) by (nonlinear_arith);
    for r in 0..n
        invariant
            n == rows@.len(),
            n * scale <= usize::MAX,
            out@.len() == r * scale,
            forall|i: int|
                0 <= i < out@.len() ==> (#[trigger] out@[i])@ == rows@[i / scale as int]@,
    {
        assert((r + 1) * scale <= n * scale && (r + 1) * scale == r * scale + scale)
            by (nonlinear_arith)
            requires
                r < n,
        {
        }
        for k in 0..scale
            invariant
                n == rows@.len(),
                r < n,
                (r + 1) * scale <= usize::MAX,
                (r + 1) * scale == r * scale + scale,
                out@.len() == r * scale + k,
                forall|i: int|
                    0 <= i < out@.len() ==> (#[trigger] out@[i])@ == rows@[i / scale as int]@,
        {
            assert((r * scale + k) / (scale as int) == r) by (nonlinear_arith)
                requires
                    k < scale,
            {
            }
            out.push(rows[r].clone());
        }
    }
    out
}

/// The glyph for a character, if it has one.
fn glyph_for(c: char) -> (g: Option<usize>)
    ensures
        g matches Some(i) ==> glyph_of(c) == Some(i as int) && i <= COLON_GLYPH,
        g is None ==> glyph_of(c) is None,
{
    if '0' <= c && c <= '9' {
        Some((c as u32 - '0' as u32) as usize)
    } else if c == ':' {
        Some(COLON_GLYPH)
    } else {
        None
    }
}

/// The big clock for `time`: `DIGIT_HEIGHT * scale` rows of block
/// characters.
pub fn render_digits(time: &str, scale: usize) -> (out: Vec<String>)
    requires
        DIGIT_HEIGHT * scale <= usize::MAX,
    ensures
        out@.len() == DIGIT_HEIGHT * scale,
        forall|i: int|
            0 <= i < out@.len() ==> (#[trigger] out@[i])@ == rendered(time@, scale as nat)[i],
{
    let chars = chars_of(time);
    let n = chars.len();
    let mut rows: Vec<String> = Vec::new();
    for r in 0..DIGIT_HEIGHT
        invariant
            rows@.len() == r,
            forall|k: int| 0 <= k < r ==> (#[trigger] rows@[k])@ == Seq::<char>::empty(),
    {
        rows.push(String::new());
    }
    assert(chars@.take(0) == Seq::<char>::empty());
    for i in 0..n
        invariant
            n == chars@.len(),
            chars@ == time@,
            rows@.len() == DIGIT_HEIGHT,
            forall|k: int|
                0 <= k < DIGIT_HEIGHT ==> (#[trigger] rows@[k])@ == digit_row(
                    chars@.take(i as int),
                    k,
                    scale as nat,
                ),
    {
        let ghost pre = rows@;
        let c = chars[i];
        let ghost t = chars@.take(i + 1);
        assert(t.drop_last() == chars@.take(i as int));
        assert(t.last() == c);
        if i > 0 {
            append_gap(&mut rows, DIGIT_GAP * scale);
        }
        match glyph_for(c) {
            Some(g) => {
                append_pattern(&mut rows, g, scale);
            },
            None => {},
        }
        assert forall|k: int| 0 <= k < DIGIT_HEIGHT implies (#[trigger] rows@[k])@ == digit_row(
            t,
            k,
            scale as nat,
        ) by {
            if i == 0 {
                assert(t.len() == 1);
                assert(pre[k]@ == Seq::<char>::empty());
                assert(Seq::<char>::empty() + char_strip(c, k, scale as nat) == char_strip(
                    c,
                    k,
                    scale as nat,
                ));
            }
        }
    }
    assert(chars@.take(n as int) == chars@);
    let out = scale_rows(rows, scale);
    assert forall|i: int| 0 <= i < out@.len() implies (#[trigger] out@[i])@ == rendered(
        time@,
        scale as nat,
    )[i] by {
        assert(0 <= i / (scale as int) < DIGIT_HEIGHT) by (nonlinear_arith)
            requires
                0 <= i < DIGIT_HEIGHT * scale,
        {
        }
    }
    out
}

proof fn lemma_expand_len(bits: u8, width: nat, count: nat, scale: nat)
    ensures
        expand_cols(bits, width, count, scale).len() == count * scale,
    decreases count,
{
    if count > 0 {
        lemma_expand_len(bits, width, (count - 1) as nat, scale);
        assert((count - 1) * scale + scale == count * scale) by (nonlinear_arith);
    } else {
        assert(0 * scale == 0) by (nonlinear_arith);
    }
}

proof fn lemma_digit_row_len(s: Seq<char>, row: int, scale: nat)
    requires
        forall|i: int| 0 <= i < s.len() ==> (#[trigger] glyph_of(s[i])) is Some,
    ensures
        digit_row(s, row, scale).len() == base_width(s) * scale,
    decreases s.len(),
{
    if s.len() > 0 {
        let c = s.last();
        assert(glyph_of(s[s.len() - 1]) is Some);
        let g = glyph_of(c).unwrap();
        lemma_expand_len(glyph_rows(g)[row], glyph_width(g), glyph_width(g), scale);
        assert(glyph_width(g) == char_base_width(c));
        if s.len() == 1 {
            assert(s[0] == c);
            assert(s.drop_last().len() == 0);
        } else {
            let d = s.drop_last();
            assert forall|i: int| 0 <= i < d.len() implies (#[trigger] glyph_of(d[i])) is Some by {
                assert(d[i] == s[i]);
                assert(glyph_of(s[i]) is Some);
            }
            lemma_digit_row_len(d, row, scale);
            let a = glyph_columns(d) + (d.len() - 1);
            let b = char_base_width(c);
            assert(base_width(d) == a);
            assert(glyph_columns(s) == glyph_columns(d) + b);
            assert(base_width(s) == a + 1 + b);
            assert(repeat_seq(' ', (DIGIT_GAP * scale) as nat).len() == scale);
            assert(char_strip(c, row, scale).len() == b * scale);
            assert(a * scale + scale + b * scale == (a + 1 + b) * scale) by (nonlinear_arith);
        }
    } else {
        assert(0 * scale == 0) by (nonlinear_arith);
    }
}

/// Rendering law: for a time made of digits and colons, the rendered clock
/// has `DIGIT_HEIGHT * scale` rows, each `base_width(time) * scale` cells
/// wide.
pub proof fn rendered_rows_have_base_width(s: Seq<char>, scale: nat)
    requires
        scale > 0,
        forall|i: int| 0 <= i < s.len() ==> (#[trigger] glyph_of(s[i])) is Some,
    ensures
        rendered(s, scale).len() == DIGIT_HEIGHT * scale,
        forall|i: int|
            0 <= i < rendered(s, scale).len() ==> (#[trigger] rendered(s, scale)[i]).len()
                == base_width(s) * scale,
{
    assert forall|i: int| 0 <= i < rendered(s, scale).len() implies (#[trigger] rendered(
        s,
        scale,
    )[i]).len() == base_width(s) * scale by {
        lemma_digit_row_len(s, i / scale as int, scale);
    }
}

/// A row of two texts joined is the row of the first, a gap, and the row of
/// the second.
proof fn lemma_digit_row_concat(a: Seq<char>, b: Seq<char>, row: int, scale: nat)
    requires
        a.len() > 0,
        b.len() > 0,
    ensures
        digit_row(a + b, row, scale) == digit_row(a, row, scale) + repeat_seq(
            ' ',
            (DIGIT_GAP * scale) as nat,
        ) + digit_row(b, row, scale),
    decreases b.len(),
{
    let gap = repeat_seq(' ', (DIGIT_GAP * scale) as nat);
    let ab = a + b;
    assert(ab.last() == b.last());
    if b.len() == 1 {
        assert(ab.drop_last() =~= a);
    } else {
        assert(ab.drop_last() =~= a + b.drop_last());
        lemma_digit_row_concat(a, b.drop_last(), row, scale);
        let ra = digit_row(a, row, scale);
        let rb = digit_row(b.drop_last(), row, scale);
        let last = char_strip(b.last(), row, scale);
        assert(ra + gap + rb + gap + last =~= ra + gap + (rb + gap + last));
    }
}

/// Joining law: the clock rendered for two texts joined shows, on every
/// row, the first text's row, a gap of `scale` blank cells, and the second
/// text's row.
pub proof fn rendering_joined_text_joins_rows(a: Seq<char>, b: Seq<char>, scale: nat)
    requires
        a.len() > 0,
        b.len() > 0,
        scale > 0,
    ensures
        rendered(a + b, scale).len() == rendered(a, scale).len(),
        forall|r: int|
            0 <= r < rendered(a + b, scale).len() ==> #[trigger] rendered(a + b, scale)[r]
                == rendered(a, scale)[r] + repeat_seq(' ', scale) + rendered(b, scale)[r],
{
    assert forall|r: int| 0 <= r < rendered(a + b, scale).len() implies #[trigger] rendered(
        a + b,
        scale,
    )[r] == rendered(a, scale)[r] + repeat_seq(' ', scale) + rendered(b, scale)[r] by {
        lemma_digit_row_concat(a, b, r / scale as int, scale);
        assert(DIGIT_GAP * scale == scale);
    }
}

} // verus!
