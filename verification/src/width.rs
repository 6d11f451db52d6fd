//! Display widths of text in terminal columns, truncation to a width, and
//! horizontal centering.

use unicode_width::{UnicodeWidthChar, UnicodeWidthStr};
use vstd::prelude::*;

use crate::text::{chars_of, push_char, string_of};

verus! {

/// The column width that `unicode_width` gives a character (`None` for a
/// control character).
pub uninterp spec fn char_columns(c: char) -> Option<usize>;

/// The column width that `unicode_width` gives a string.
pub uninterp spec fn text_columns(s: Seq<char>) -> usize;

/// `UnicodeWidthChar::width`: the result is `char_columns(c)`, one column
/// for a printable ASCII character (`' '` to `'~'`).
#[verifier::external_body]
fn unicode_char_width(c: char) -> (r: Option<usize>)
    ensures
        r == char_columns(c),
        '\u{20}' <= c < '\u{7F}' ==> r == Some(1usize),
{
    UnicodeWidthChar::width(c)
}

/// `UnicodeWidthStr::width`: the result is `text_columns(s)`.
#[verifier::external_body]
fn unicode_text_width(s: &str) -> (r: usize)
    ensures
        r == text_columns(s@),
{
    UnicodeWidthStr::width(s)
}

/// Columns a character takes when text is cut to a width; a character
/// without a width counts as zero.
pub open spec fn columns(c: char) -> nat {
    match char_columns(c) {
        Some(w) => w as nat,
        None => 0,
    }
}

/// The longest prefix of `s` whose columns add up to at most `budget`.
pub open spec fn fit_prefix(s: Seq<char>, budget: int) -> Seq<char>
    decreases s.len(),
{
    if s.len() == 0 || columns(s[0]) > budget {
        seq![]
    } else {
        seq![s[0]] + fit_prefix(s.drop_first(), budget - columns(s[0]))
    }
}

/// `s` cut to `width` columns: unchanged when it fits, empty when not even
/// an ellipsis fits, else the longest prefix that fits in `width - 3`
/// columns followed by `...`.
pub open spec fn truncated(s: Seq<char>, width: nat) -> Seq<char> {
    if text_columns(s) <= width {
        s
    } else if width < 3 {
        seq![]
    } else {
        fit_prefix(s, width - 3) + seq!['.', '.', '.']
    }
}

/// The display width of `text` in columns.
pub fn display_width(text: &str) -> (r: usize)
    ensures
        r == text_columns(text@),
{
    unicode_text_width(text)
}

/// Whether `s` fits in `width` columns in one of two measures: the width
/// unicode-width gives the whole text, or the sum of its characters'
/// widths (the two differ for emoji sequences and some ligatures).
pub open spec fn fits_width(s: Seq<char>, width: nat) -> bool {
    text_columns(s) <= width || columns_sum(s) <= width
}

/// `value` cut to `width` columns, marked with `...` when cut: a text that
/// is not cut is at most `width` columns wide as unicode-width measures it,
/// and a cut text's characters' widths add up to at most `width` (its
/// whole-text width may differ from that sum, as for the text itself).
pub fn truncate_to_width(value: &str, width: usize) -> (r: String)
    ensures
        r@ == truncated(value@, width as nat),
        fits_width(r@, width as nat),
        text_columns(value@) > width ==> columns_sum(r@) <= width,
{
    if display_width(value) <= width {
        return string_of(&chars_of(value));
    }
    if width < 3 {
        return String::new();
    }
    let dot_width = unicode_char_width('.');
    assert(columns('.') == 1) by {
        assert(dot_width == Some(1usize));
    }
    let chars = chars_of(value);
    let n = chars.len();
    let target_width = width - 3;
    let mut truncated_text = String::new();
    let mut current_width: usize = 0;
    let mut i: usize = 0;
    let mut stopped = false;
    assert(chars@.skip(0) == chars@);
    assert(truncated_text@ + fit_prefix(chars@, target_width as int) == fit_prefix(
        chars@,
        target_width as int,
    ));
    while i < n && !stopped
        invariant
            n == chars@.len(),
            chars@ == value@,
            i <= n,
            current_width <= target_width,
            fit_prefix(chars@, target_width as int) == truncated_text@ + (if stopped {
                seq![]
            } else {
                fit_prefix(chars@.skip(i as int), target_width - current_width)
            }),
        decreases n - i, (if stopped { 0int } else { 1int }),
    {
        let ch = chars[i];
        let char_width = match unicode_char_width(ch) {
            Some(w) => w,
            None => 0,
        };
        let ghost rest = chars@.skip(i as int);
        assert(rest[0] == ch);
        assert(rest.drop_first() == chars@.skip(i + 1));
        if char_width > target_width - current_width {
            stopped = true;
        } else {
            push_char(&mut truncated_text, ch);
            current_width = current_width + char_width;
            i = i + 1;
        }
    }
    proof {
        if !stopped {
            assert(chars@.skip(n as int).len() == 0);
        }
        assert(truncated_text@ + seq![] == truncated_text@);
    }
    push_char(&mut truncated_text, '.');
    push_char(&mut truncated_text, '.');
    push_char(&mut truncated_text, '.');
    proof {
        lemma_cut_text_fits(value@, width as nat);
    }
    truncated_text
}

/// The column at which text `columns` wide, drawn `scale` times as wide,
/// starts when centered in `terminal_width` columns (the product is capped
/// at `usize::MAX`, then kept to its low 16 bits as a `u16`).
pub open spec fn centered_column(columns: nat, terminal_width: u16, scale: nat) -> u16 {
    let product = columns * scale;
    let capped: usize = if product > usize::MAX {
        usize::MAX
    } else {
        product as usize
    };
    let w = capped as u16;
    if terminal_width >= w {
        ((terminal_width - w) / 2) as u16
    } else {
        0
    }
}

/// Left column for `text` scaled by `scale` and centered in the terminal.
pub fn centered_x_scaled(text: &str, terminal_width: u16, scale: usize) -> (x: u16)
    ensures
        x == centered_column(text_columns(text@) as nat, terminal_width, scale as nat),
{
    let width = match display_width(text).checked_mul(scale) {
        Some(p) => p,
        None => usize::MAX,
    };
    let w = width as u16;
    terminal_width.saturating_sub(w) / 2
}

/// Left column for `text` centered in the terminal.
pub fn centered_x(text: &str, terminal_width: u16) -> (x: u16)
    ensures
        x == centered_column(text_columns(text@) as nat, terminal_width, 1),
{
    centered_x_scaled(text, terminal_width, 1)
}

/// Centering law: text that fits the terminal, centered, ends within it, and
/// leaves no more room on its left than on its right.
pub proof fn centered_text_fits(columns: nat, terminal_width: u16)
    requires
        columns <= terminal_width,
    ensures
        centered_column(columns, terminal_width, 1) + columns <= terminal_width,
        centered_column(columns, terminal_width, 1) <= terminal_width - columns
            - centered_column(columns, terminal_width, 1),
{
    assert(columns * 1 == columns);
}

/// Columns the characters of `s` add up to.
pub open spec fn columns_sum(s: Seq<char>) -> nat
    decreases s.len(),
{
    if s.len() == 0 {
        0
    } else {
        columns(s[0]) + columns_sum(s.drop_first())
    }
}

/// Truncation law: the text kept before the ellipsis is a prefix of the
/// whole text whose characters add up to at most the columns left for it.
pub proof fn cut_text_is_a_fitting_prefix(s: Seq<char>, budget: int)
    requires
        budget >= 0,
    ensures
        fit_prefix(s, budget).len() <= s.len(),
        s.take(fit_prefix(s, budget).len() as int) == fit_prefix(s, budget),
        columns_sum(fit_prefix(s, budget)) <= budget,
    decreases s.len(),
{
    if s.len() > 0 && columns(s[0]) <= budget {
        let d = s.drop_first();
        cut_text_is_a_fitting_prefix(d, budget - columns(s[0]));
        let f = fit_prefix(s, budget);
        assert(f.drop_first() == fit_prefix(d, budget - columns(s[0])));
        assert(s.take(f.len() as int) =~= f);
    } else {
        assert(s.take(0) =~= Seq::<char>::empty());
    }
}

/// The columns of two texts joined are the columns of each, added.
pub proof fn lemma_columns_sum_concat(a: Seq<char>, b: Seq<char>)
    ensures
        columns_sum(a + b) == columns_sum(a) + columns_sum(b),
    decreases a.len(),
{
    if a.len() > 0 {
        lemma_columns_sum_concat(a.drop_first(), b);
        assert((a + b).drop_first() =~= a.drop_first() + b);
    } else {
        assert(a + b =~= b);
    }
}

/// With `.` one column wide, a text that had to be cut adds up to at most
/// the width it was cut to.
proof fn lemma_cut_text_fits(s: Seq<char>, width: nat)
    requires
        columns('.') == 1,
        text_columns(s) > width,
    ensures
        columns_sum(truncated(s, width)) <= width,
{
    if width >= 3 {
        let p = fit_prefix(s, width - 3);
        cut_text_is_a_fitting_prefix(s, width - 3);
        lemma_columns_sum_concat(p, seq!['.', '.', '.']);
        reveal_with_fuel(columns_sum, 4);
        assert(seq!['.', '.', '.'].drop_first() =~= seq!['.', '.']);
        assert(seq!['.', '.'].drop_first() =~= seq!['.']);
        assert(seq!['.'].drop_first() =~= Seq::<char>::empty());
    } else {
        assert(truncated(s, width) =~= Seq::<char>::empty());
    }
}

/// Idempotence law: cutting a text a second time to the same width leaves
/// it as it is, whenever unicode-width measures the text cut the first time
/// as the sum of its characters' widths and `.` is one column wide (as
/// unicode-width gives every printable ASCII character).
pub proof fn truncating_twice_is_truncating_once(s: Seq<char>, width: nat)
    requires
        columns('.') == 1,
        text_columns(truncated(s, width)) == columns_sum(truncated(s, width)),
    ensures
        truncated(truncated(s, width), width) == truncated(s, width),
{
    if text_columns(s) > width {
        lemma_cut_text_fits(s, width);
    }
}

} // verus!
