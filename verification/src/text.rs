//! Character-level text helpers: building strings, trimming, splitting into
//! fields and lines, joining, and decimal formatting.

use vstd::prelude::*;
use vstd::string::*;

verus! {

/// Appends one character to a string (std's `String::push`).
#[verifier::external_body]
pub(crate) fn push_char(s: &mut String, c: char)
    ensures
        final(s)@ == old(s)@.push(c),
{
    s.push(c);
}

/// The characters of a string, in order.
pub fn chars_of(s: &str) -> (v: Vec<char>)
    ensures
        v@ == s@,
{
    let n = s.unicode_len();
    let mut v: Vec<char> = Vec::new();
    for i in 0..n
        invariant
            n == s@.len(),
            v@ == s@.take(i as int),
    {
        v.push(s.get_char(i));
        assert(s@.take(i + 1) == s@.take(i as int).push(s@[i as int]));
    }
    assert(s@.take(n as int) == s@);
    v
}

/// Appends every character of `t` to `s`.
pub fn push_chars(s: &mut String, t: &Vec<char>)
    ensures
        final(s)@ == old(s)@ + t@,
{
    let n = t.len();
    for i in 0..n
        invariant
            n == t@.len(),
            s@ == old(s)@ + t@.take(i as int),
    {
        push_char(s, t[i]);
        assert(t@.take(i + 1) == t@.take(i as int).push(t@[i as int]));
    }
    assert(t@.take(n as int) == t@);
}

/// Appends a string slice to `s`.
pub fn push_str(s: &mut String, t: &str)
    ensures
        final(s)@ == old(s)@ + t@,
{
    s.append(t);
}

/// A string holding exactly the given characters.
pub fn string_of(v: &Vec<char>) -> (s: String)
    ensures
        s@ == v@,
{
    let mut s = String::new();
    push_chars(&mut s, v);
    s
}

/// `n` copies of `c`.
pub open spec fn repeat_seq(c: char, n: nat) -> Seq<char> {
    Seq::new(n, |i: int| c)
}

/// Appends `n` copies of `c` to `s`.
pub fn push_repeat(s: &mut String, c: char, n: usize)
    ensures
        final(s)@ == old(s)@ + repeat_seq(c, n as nat),
{
    for i in 0..n
        invariant
            s@ == old(s)@ + repeat_seq(c, i as nat),
    {
        push_char(s, c);
        assert(repeat_seq(c, (i + 1) as nat) == repeat_seq(c, i as nat).push(c));
    }
}

/// Unicode `White_Space`, the property that `char::is_whitespace` and
/// `str::trim` test.
pub open spec fn is_space(c: char) -> bool {
    let u = c as u32;
    ||| 0x9 <= u && u <= 0xD
    ||| u == 0x20
    ||| u == 0x85
    ||| u == 0xA0
    ||| u == 0x1680
    ||| 0x2000 <= u && u <= 0x200A
    ||| u == 0x2028
    ||| u == 0x2029
    ||| u == 0x202F
    ||| u == 0x205F
    ||| u == 0x3000
}

/// Tests `is_space`.
pub fn char_is_space(c: char) -> (b: bool)
    ensures
        b == is_space(c),
{
    let u = c as u32;
    (0x9 <= u && u <= 0xD) || u == 0x20 || u == 0x85 || u == 0xA0 || u == 0x1680 || (0x2000
        <= u && u <= 0x200A) || u == 0x2028 || u == 0x2029 || u == 0x202F || u == 0x205F || u
        == 0x3000
}

/// `s` without its leading white space.
pub open spec fn trim_start(s: Seq<char>) -> Seq<char>
    decreases s.len(),
{
    if s.len() > 0 && is_space(s[0]) {
        trim_start(s.drop_first())
    } else {
        s
    }
}

/// `s` without its trailing white space.
pub open spec fn trim_end(s: Seq<char>) -> Seq<char>
    decreases s.len(),
{
    if s.len() > 0 && is_space(s.last()) {
        trim_end(s.drop_last())
    } else {
        s
    }
}

/// `s` without leading and trailing white space (what `str::trim` returns).
pub open spec fn trim(s: Seq<char>) -> Seq<char> {
    trim_end(trim_start(s))
}

proof fn lemma_trim_start(s: Seq<char>, i: int)
    requires
        0 <= i <= s.len(),
        forall|k: int| 0 <= k < i ==> is_space(#[trigger] s[k]),
        i == s.len() || !is_space(s[i]),
    ensures
        trim_start(s) == s.skip(i),
    decreases i,
{
    if i > 0 {
        lemma_trim_start(s.drop_first(), i - 1);
        assert(s.drop_first().skip(i - 1) == s.skip(i));
    } else {
        assert(s.skip(0) == s);
    }
}

proof fn lemma_trim_end(s: Seq<char>, j: int)
    requires
        0 <= j <= s.len(),
        forall|k: int| j <= k < s.len() ==> is_space(#[trigger] s[k]),
        j == 0 || !is_space(s[j - 1]),
    ensures
        trim_end(s) == s.take(j),
    decreases s.len() - j,
{
    if j < s.len() {
        lemma_trim_end(s.drop_last(), j);
        assert(s.drop_last().take(j) == s.take(j));
    } else {
        assert(s.take(j) == s);
    }
}

/// The characters `lo..hi` of `v`.
pub fn slice_chars(v: &Vec<char>, lo: usize, hi: usize) -> (r: Vec<char>)
    requires
        lo <= hi <= v@.len(),
    ensures
        r@ == v@.subrange(lo as int, hi as int),
{
    let mut r: Vec<char> = Vec::new();
    let mut i = lo;
    while i < hi
        invariant
            lo <= i <= hi <= v@.len(),
            r@ == v@.subrange(lo as int, i as int),
        decreases hi - i,
    {
        r.push(v[i]);
        assert(v@.subrange(lo as int, i + 1) == v@.subrange(lo as int, i as int).push(v@[i as int]));
        i = i + 1;
    }
    r
}

/// `v` with leading and trailing white space removed.
pub fn trim_chars(v: &Vec<char>) -> (r: Vec<char>)
    ensures
        r@ == trim(v@),
{
    let n = v.len();
    let mut i: usize = 0;
    while i < n && char_is_space(v[i])
        invariant
            i <= n == v@.len(),
            forall|k: int| 0 <= k < i ==> is_space(#[trigger] v@[k]),
        decreases n - i,
    {
        i = i + 1;
    }
    proof {
        lemma_trim_start(v@, i as int);
    }
    let mut j: usize = n;
    while j > i && char_is_space(v[j - 1])
        invariant
            i <= j <= n == v@.len(),
            forall|k: int| j <= k < n ==> is_space(#[trigger] v@[k]),
        decreases j,
    {
        j = j - 1;
    }
    proof {
        let t = v@.skip(i as int);
        assert forall|k: int| j - i <= k < t.len() implies is_space(#[trigger] t[k]) by {
            assert(t[k] == v@[k + i]);
        }
        lemma_trim_end(t, j - i);
        assert(t.take(j - i) == v@.subrange(i as int, j as int));
    }
    slice_chars(v, i, j)
}

/// `s` with leading and trailing white space removed (std's `str::trim`).
pub fn trim_str(s: &str) -> (r: String)
    ensures
        r@ == trim(s@),
{
    let v = chars_of(s);
    let t = trim_chars(&v);
    string_of(&t)
}

/// Position of the first `c` in `s`, or `s.len()` when there is none.
pub open spec fn index_of(s: Seq<char>, c: char) -> nat
    decreases s.len(),
{
    if s.len() == 0 {
        0
    } else if s[0] == c {
        0
    } else {
        1 + index_of(s.drop_first(), c)
    }
}

/// The pieces of `s` between occurrences of `sep` (std's `str::split` with a
/// `char`): always at least one piece.
pub open spec fn split_on(s: Seq<char>, sep: char) -> Seq<Seq<char>>
    decreases s.len(),
{
    if index_of(s, sep) >= s.len() {
        seq![s]
    } else {
        seq![s.take(index_of(s, sep) as int)] + split_on(s.skip(index_of(s, sep) as int + 1), sep)
    }
}

/// A line without the carriage return that ends it, if any.
pub open spec fn strip_cr(l: Seq<char>) -> Seq<char> {
    if l.len() > 0 && l.last() == '\r' {
        l.drop_last()
    } else {
        l
    }
}

/// The lines of `s` (std's `str::lines`): split at `\n`, with a `\r` just
/// before the `\n` removed; a final line ending adds no empty line.
pub open spec fn lines_of(s: Seq<char>) -> Seq<Seq<char>>
    decreases s.len(),
{
    if s.len() == 0 {
        seq![]
    } else if index_of(s, '\n') >= s.len() {
        seq![s]
    } else {
        seq![strip_cr(s.take(index_of(s, '\n') as int))] + lines_of(
            s.skip(index_of(s, '\n') as int + 1),
        )
    }
}

proof fn lemma_index_of_bounds(s: Seq<char>, c: char)
    ensures
        index_of(s, c) <= s.len(),
        index_of(s, c) < s.len() ==> s[index_of(s, c) as int] == c,
        forall|k: int| 0 <= k < index_of(s, c) ==> s[k] != c,
    decreases s.len(),
{
    if s.len() > 0 && s[0] != c {
        lemma_index_of_bounds(s.drop_first(), c);
        assert forall|k: int| 0 <= k < index_of(s, c) implies s[k] != c by {
            if k > 0 {
                assert(s[k] == s.drop_first()[k - 1]);
            }
        }
    }
}

proof fn lemma_index_of_prefix(cur: Seq<char>, t: Seq<char>, c: char)
    requires
        forall|k: int| 0 <= k < cur.len() ==> cur[k] != c,
    ensures
        index_of(cur + t, c) == cur.len() + index_of(t, c),
    decreases cur.len(),
{
    if cur.len() > 0 {
        lemma_index_of_prefix(cur.drop_first(), t, c);
        assert((cur + t).drop_first() == cur.drop_first() + t);
    } else {
        assert(cur + t == t);
    }
}

/// The texts of a list of strings.
pub open spec fn strings_view(v: Seq<String>) -> Seq<Seq<char>> {
    v.map_values(|s: String| s@)
}

/// The character sequences held by a vector of character vectors.
pub open spec fn views(v: Seq<Vec<char>>) -> Seq<Seq<char>> {
    v.map_values(|x: Vec<char>| x@)
}

proof fn lemma_views_push(v: Seq<Vec<char>>, x: Vec<char>)
    ensures
        views(v.push(x)) == views(v).push(x@),
{
    assert(views(v.push(x)) =~= views(v).push(x@));
}

/// The pieces of `v` between occurrences of `sep`.
pub fn split_chars(v: &Vec<char>, sep: char) -> (r: Vec<Vec<char>>)
    ensures
        views(r@) == split_on(v@, sep),
{
    let n = v.len();
    let mut done: Vec<Vec<char>> = Vec::new();
    let mut cur: Vec<char> = Vec::new();
    assert(cur@ + v@.skip(0) == v@);
    assert(views(done@) == Seq::<Seq<char>>::empty());
    for i in 0..n
        invariant
            n == v@.len(),
            forall|k: int| 0 <= k < cur@.len() ==> cur@[k] != sep,
            split_on(v@, sep) == views(done@) + split_on(cur@ + v@.skip(i as int), sep),
    {
        let ghost rest = cur@ + v@.skip(i as int);
        proof {
            lemma_index_of_prefix(cur@, v@.skip(i as int), sep);
            assert(v@.skip(i as int)[0] == v@[i as int]);
        }
        if v[i] == sep {
            proof {
                assert(index_of(v@.skip(i as int), sep) == 0);
                assert(rest.take(cur@.len() as int) == cur@);
                assert(rest.skip(cur@.len() as int + 1) == v@.skip(i + 1));
            }
            let piece = cur;
            cur = Vec::new();
            proof {
                lemma_views_push(done@, piece);
            }
            done.push(piece);
            assert(cur@ + v@.skip(i + 1) == v@.skip(i + 1));
        } else {
            cur.push(v[i]);
            assert(cur@ + v@.skip(i + 1) == rest);
        }
    }
    proof {
        assert(v@.skip(n as int) == Seq::<char>::empty());
        assert(cur@ + v@.skip(n as int) == cur@);
        lemma_index_of_prefix(cur@, Seq::<char>::empty(), sep);
        assert(cur@ + Seq::<char>::empty() == cur@);
    }
    proof {
        lemma_views_push(done@, cur);
        assert(views(done@) + seq![cur@] == views(done@).push(cur@));
    }
    done.push(cur);
    done
}

/// The lines of `v`.
pub fn lines_chars(v: &Vec<char>) -> (r: Vec<Vec<char>>)
    ensures
        views(r@) == lines_of(v@),
{
    let n = v.len();
    let mut done: Vec<Vec<char>> = Vec::new();
    let mut cur: Vec<char> = Vec::new();
    assert(cur@ + v@.skip(0) == v@);
    assert(views(done@) == Seq::<Seq<char>>::empty());
    for i in 0..n
        invariant
            n == v@.len(),
            forall|k: int| 0 <= k < cur@.len() ==> cur@[k] != '\n',
            lines_of(v@) == views(done@) + lines_of(cur@ + v@.skip(i as int)),
    {
        let ghost rest = cur@ + v@.skip(i as int);
        proof {
            lemma_index_of_prefix(cur@, v@.skip(i as int), '\n');
            assert(v@.skip(i as int)[0] == v@[i as int]);
        }
        if v[i] == '\n' {
            proof {
                assert(index_of(v@.skip(i as int), '\n') == 0);
                assert(rest.take(cur@.len() as int) == cur@);
                assert(rest.skip(cur@.len() as int + 1) == v@.skip(i + 1));
            }
            let m = cur.len();
            let piece = if m > 0 && cur[m - 1] == '\r' {
                slice_chars(&cur, 0, m - 1)
            } else {
                cur
            };
            proof {
                if m > 0 && cur@[m - 1] == '\r' {
                    assert(cur@.subrange(0, m - 1) == cur@.drop_last());
                }
            }
            cur = Vec::new();
            proof {
                lemma_views_push(done@, piece);
            }
            done.push(piece);
            assert(cur@ + v@.skip(i + 1) == v@.skip(i + 1));
        } else {
            cur.push(v[i]);
            assert(cur@ + v@.skip(i + 1) == rest);
        }
    }
    proof {
        assert(v@.skip(n as int) == Seq::<char>::empty());
        assert(cur@ + v@.skip(n as int) == cur@);
        lemma_index_of_prefix(cur@, Seq::<char>::empty(), '\n');
        assert(cur@ + Seq::<char>::empty() == cur@);
    }
    if cur.len() > 0 {
        proof {
            lemma_views_push(done@, cur);
            assert(views(done@) + seq![cur@] == views(done@).push(cur@));
        }
        done.push(cur);
    } else {
        assert(views(done@) == views(done@) + Seq::<Seq<char>>::empty());
    }
    done
}

/// The pieces joined with `sep` between neighbours (std's `join`).
pub open spec fn join(parts: Seq<Seq<char>>, sep: Seq<char>) -> Seq<char>
    decreases parts.len(),
{
    if parts.len() == 0 {
        seq![]
    } else if parts.len() == 1 {
        parts[0]
    } else {
        join(parts.drop_last(), sep) + sep + parts.last()
    }
}

/// Joins `parts[from..]` with `sep` between neighbours.
pub fn join_from(parts: &Vec<Vec<char>>, from: usize, sep: &str) -> (r: Vec<char>)
    requires
        from <= parts@.len(),
    ensures
        r@ == join(views(parts@).skip(from as int), sep@),
{
    let sepv = chars_of(sep);
    let n = parts.len();
    let mut r: Vec<char> = Vec::new();
    let mut i = from;
    while i < n
        invariant
            from <= i <= n == parts@.len(),
            sepv@ == sep@,
            r@ == join(views(parts@).subrange(from as int, i as int), sep@),
        decreases n - i,
    {
        let ghost pre = views(parts@).subrange(from as int, i as int);
        let ghost post = views(parts@).subrange(from as int, i + 1);
        assert(post.drop_last() == pre);
        assert(post.last() == parts[i as int]@);
        if i > from {
            let mut k: usize = 0;
            while k < sepv.len()
                invariant
                    k <= sepv@.len(),
                    r@ == join(pre, sep@) + sepv@.take(k as int),
                decreases sepv@.len() - k,
            {
                r.push(sepv[k]);
                assert(sepv@.take(k + 1) == sepv@.take(k as int).push(sepv@[k as int]));
                k = k + 1;
            }
            assert(sepv@.take(sepv@.len() as int) == sepv@);
        } else {
            assert(pre.len() == 0);
        }
        let piece = &parts[i];
        let mut k: usize = 0;
        let ghost base = r@;
        while k < piece.len()
            invariant
                k <= piece@.len(),
                r@ == base + piece@.take(k as int),
            decreases piece@.len() - k,
        {
            r.push(piece[k]);
            assert(piece@.take(k + 1) == piece@.take(k as int).push(piece@[k as int]));
            k = k + 1;
        }
        assert(piece@.take(piece@.len() as int) == piece@);
        i = i + 1;
    }
    assert(views(parts@).subrange(from as int, n as int) == views(parts@).skip(
        from as int,
    ));
    r
}

/// The decimal digit for `d < 10`.
pub open spec fn digit_char(d: nat) -> char {
    if d == 0 {
        '0'
    } else if d == 1 {
        '1'
    } else if d == 2 {
        '2'
    } else if d == 3 {
        '3'
    } else if d == 4 {
        '4'
    } else if d == 5 {
        '5'
    } else if d == 6 {
        '6'
    } else if d == 7 {
        '7'
    } else if d == 8 {
        '8'
    } else {
        '9'
    }
}

/// The decimal digits of `n`, without leading zeros.
pub open spec fn digits_of(n: nat) -> Seq<char>
    decreases n,
{
    if n < 10 {
        seq![digit_char(n)]
    } else {
        digits_of(n / 10).push(digit_char(n % 10))
    }
}

/// `n` in decimal, with a leading `-` when negative (std's `Display`).
pub open spec fn decimal(n: int) -> Seq<char> {
    if n < 0 {
        seq!['-'] + digits_of((-n) as nat)
    } else {
        digits_of(n as nat)
    }
}

/// `n` in decimal, zero-padded to at least two digits (chrono's `%H`, `%M`).
pub open spec fn pad2(n: nat) -> Seq<char> {
    if n < 10 {
        seq!['0', digit_char(n)]
    } else {
        digits_of(n)
    }
}

fn digit_of(d: u128) -> (c: char)
    requires
        d < 10,
    ensures
        c == digit_char(d as nat),
{
    if d == 0 {
        '0'
    } else if d == 1 {
        '1'
    } else if d == 2 {
        '2'
    } else if d == 3 {
        '3'
    } else if d == 4 {
        '4'
    } else if d == 5 {
        '5'
    } else if d == 6 {
        '6'
    } else if d == 7 {
        '7'
    } else if d == 8 {
        '8'
    } else {
        '9'
    }
}

/// Appends the decimal digits of `n` to `s`.
pub fn push_digits(s: &mut String, n: u128)
    ensures
        final(s)@ == old(s)@ + digits_of(n as nat),
    decreases n,
{
    if n >= 10 {
        push_digits(s, n / 10);
    }
    push_char(s, digit_of(n % 10));
    proof {
        if n >= 10 {
            assert(old(s)@ + digits_of(n as nat) == old(s)@ + digits_of((n / 10) as nat) + seq![
                digit_char((n % 10) as nat)]);
        } else {
            assert(old(s)@ + digits_of(n as nat) == old(s)@.push(digit_char(n as nat)));
        }
    }
}

/// Appends `n` in decimal to `s`.
pub fn push_decimal(s: &mut String, n: i64)
    ensures
        final(s)@ == old(s)@ + decimal(n as int),
{
    if n < 0 {
        push_char(s, '-');
        let m: u64 = (0i128 - n as i128) as u64;
        push_digits(s, m as u128);
        assert(old(s)@ + decimal(n as int) == old(s)@.push('-') + digits_of(m as nat));
    } else {
        push_digits(s, n as u128);
    }
}

/// Appends `n` zero-padded to two digits to `s`.
pub fn push_pad2(s: &mut String, n: u32)
    ensures
        final(s)@ == old(s)@ + pad2(n as nat),
{
    if n < 10 {
        push_char(s, '0');
        push_char(s, digit_of(n as u128));
        assert(old(s)@ + pad2(n as nat) == old(s)@.push('0').push(digit_char(n as nat)));
    } else {
        push_digits(s, n as u128);
    }
}

} // verus!
