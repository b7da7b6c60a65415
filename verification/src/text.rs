//! Text as the screens hold it: styled runs of characters, and the few
//! string-building steps every panel shares.

use vstd::prelude::*;

use crate::style::Style;

verus! {

/// A run of characters drawn in one style.
pub struct Span {
    pub text: String,
    pub style: Style,
}

impl Span {
    pub fn styled(text: String, style: Style) -> (s: Span)
        ensures
            s.text@ == text@,
            s.style == style,
    {
        Span { text, style }
    }
}

/// The characters of a run of spans, end to end.
pub open spec fn text_of(spans: Seq<Span>) -> Seq<char>
    decreases spans.len(),
{
    if spans.len() == 0 {
        Seq::empty()
    } else {
        text_of(spans.drop_last()) + spans.last().text@
    }
}

/// Each span as its characters and its style.
pub open spec fn span_views(spans: Seq<Span>) -> Seq<(Seq<char>, Style)> {
    spans.map_values(|s: Span| (s.text@, s.style))
}

/// How many cells a run of spans takes.
pub open spec fn width_of(spans: Seq<Span>) -> nat {
    text_of(spans).len()
}

/// Push one span onto a row: the row's text grows by the span's.
pub fn push_span(row: &mut Vec<Span>, span: Span)
    ensures
        final(row)@ == old(row)@.push(span),
        text_of(final(row)@) == text_of(old(row)@) + span.text@,
{
    let ghost before = row@;
    row.push(span);
    assert(row@.drop_last() =~= before);
}

/// `n` copies of one character.
pub open spec fn repeated(c: char, n: nat) -> Seq<char> {
    Seq::new(n, |i: int| c)
}

/// Calls `String::push`, which appends one character.
#[verifier::external_body]
pub(crate) fn push_char(s: &mut String, c: char)
    ensures
        final(s)@ == old(s)@.push(c),
{
    s.push(c);
}

/// A string of one character.
pub fn char_string(c: char) -> (s: String)
    ensures
        s@ == seq![c],
{
    let mut s = String::new();
    push_char(&mut s, c);
    assert(s@ =~= seq![c]);
    s
}

/// `n` copies of `c`.
pub fn repeat_char(c: char, n: usize) -> (s: String)
    ensures
        s@ == repeated(c, n as nat),
{
    let mut s = String::new();
    let mut i: usize = 0;
    while i < n
        invariant
            i <= n,
            s@ =~= repeated(c, i as nat),
        decreases n - i,
    {
        push_char(&mut s, c);
        i += 1;
    }
    s
}

/// The decimal digits of a number, most significant first.
pub open spec fn decimal_spec(n: nat) -> Seq<char>
    decreases n,
{
    if n < 10 {
        seq![digit_char(n)]
    } else {
        decimal_spec(n / 10).push(digit_char(n % 10))
    }
}

pub open spec fn digit_char(d: nat) -> char {
    if d == 0 { '0' }
    else if d == 1 { '1' }
    else if d == 2 { '2' }
    else if d == 3 { '3' }
    else if d == 4 { '4' }
    else if d == 5 { '5' }
    else if d == 6 { '6' }
    else if d == 7 { '7' }
    else if d == 8 { '8' }
    else { '9' }
}

pub fn digit_char_of(d: u64) -> (c: char)
    requires
        d < 10,
    ensures
        c == digit_char(d as nat),
{
    if d == 0 { '0' }
    else if d == 1 { '1' }
    else if d == 2 { '2' }
    else if d == 3 { '3' }
    else if d == 4 { '4' }
    else if d == 5 { '5' }
    else if d == 6 { '6' }
    else if d == 7 { '7' }
    else if d == 8 { '8' }
    else { '9' }
}

/// A number in decimal.
pub fn decimal(n: u64) -> (s: String)
    ensures
        s@ == decimal_spec(n as nat),
    decreases n,
{
    if n < 10 {
        char_string(digit_char_of(n))
    } else {
        let mut s = decimal(n / 10);
        push_char(&mut s, digit_char_of(n % 10));
        s
    }
}

/// A signed number in decimal, with a minus sign when it is negative.
pub open spec fn signed_decimal_spec(n: int) -> Seq<char> {
    if n < 0 { seq!['-'] + decimal_spec((-n) as nat) } else { decimal_spec(n as nat) }
}

pub fn signed_decimal(n: i64) -> (s: String)
    requires
        n > i64::MIN,
    ensures
        s@ == signed_decimal_spec(n as int),
{
    if n < 0 {
        let mut s = char_string('-');
        let digits = decimal((-n) as u64);
        s.append(digits.as_str());
        s
    } else {
        decimal(n as u64)
    }
}

/// The cells a run of spans covers: each character with its span's style.
pub open spec fn cells_of(spans: Seq<Span>) -> Seq<(char, Style)>
    decreases spans.len(),
{
    if spans.len() == 0 {
        Seq::empty()
    } else {
        cells_of(spans.drop_last()) + styled_chars(spans.last().text@, spans.last().style)
    }
}

/// Every character of `text` in `style`.
pub open spec fn styled_chars(text: Seq<char>, style: Style) -> Seq<(char, Style)> {
    text.map(|i: int, c: char| (c, style))
}

/// Spans that no merge could shorten: none empty, and no two neighbours in
/// the same style.
pub open spec fn maximal(spans: Seq<Span>) -> bool {
    &&& forall|i: int| 0 <= i < spans.len() ==> #[trigger] spans[i].text@.len() > 0
    &&& forall|i: int| 0 < i < spans.len() ==> #[trigger] spans[i].style != spans[i - 1].style
}

/// A run of spans has one cell for each of its characters.
pub proof fn lemma_cells_width(spans: Seq<Span>)
    ensures
        cells_of(spans).len() == width_of(spans),
    decreases spans.len(),
{
    if spans.len() > 0 {
        lemma_cells_width(spans.drop_last());
    }
}

/// Merge a row of styled cells into spans, one per run of equal style.
///
/// The spans cover exactly the cells they were made from, and none could be
/// merged with its neighbour.
pub fn merge_cells(row: &Vec<(char, Style)>) -> (spans: Vec<Span>)
    ensures
        cells_of(spans@) == row@,
        maximal(spans@),
{
    let mut spans: Vec<Span> = Vec::new();
    if row.len() == 0 {
        assert(cells_of(spans@) =~= row@);
        return spans;
    }
    let mut text = String::new();
    let mut cur = row[0].1;
    let mut i: usize = 0;
    while i < row.len()
        invariant
            0 <= i <= row.len(),
            row.len() > 0,
            cells_of(spans@) + styled_chars(text@, cur) == row@.subrange(0, i as int),
            i > 0 ==> text@.len() > 0,
            i == 0 ==> text@.len() == 0 && spans@.len() == 0 && cur == row@[0].1,
            maximal(spans@),
            spans@.len() > 0 ==> spans@.last().style != cur,
        decreases row.len() - i,
    {
        let (ch, s) = row[i];
        if s == cur || i == 0 {
            let ghost old_text = text@;
            push_char(&mut text, ch);
            proof {
                assert(styled_chars(text@, cur) =~= styled_chars(old_text, cur).push((ch, cur)));
                assert(row@.subrange(0, i as int + 1) =~= row@.subrange(0, i as int).push(row@[i as int]));
            }
        } else {
            let ghost old_spans = spans@;
            let done = Span::styled(text, cur);
            spans.push(done);
            proof {
                assert(spans@.drop_last() =~= old_spans);
                assert forall|k: int| 0 < k < spans@.len() implies #[trigger] spans@[k].style != spans@[k - 1].style by {
                    if k < spans@.len() - 1 {
                        assert(spans@[k] == old_spans[k]);
                    }
                }
            }
            text = String::new();
            cur = s;
            push_char(&mut text, ch);
            proof {
                assert(styled_chars(text@, cur) =~= seq![(ch, cur)]);
                assert(row@.subrange(0, i as int + 1) =~= row@.subrange(0, i as int).push(row@[i as int]));
            }
        }
        i += 1;
    }
    let ghost old_spans = spans@;
    spans.push(Span::styled(text, cur));
    proof {
        assert(spans@.drop_last() =~= old_spans);
        assert(row@.subrange(0, row@.len() as int) =~= row@);
        assert forall|k: int| 0 < k < spans@.len() implies #[trigger] spans@[k].style != spans@[k - 1].style by {
            if k < spans@.len() - 1 {
                assert(spans@[k] == old_spans[k]);
            }
        }
    }
    spans
}

/// Merge every row of a grid of styled cells into spans.
pub fn grid_to_lines(grid: &Vec<Vec<(char, Style)>>) -> (lines: Vec<Vec<Span>>)
    ensures
        lines.len() == grid.len(),
        forall|r: int| 0 <= r < grid.len() ==> cells_of(#[trigger] lines@[r]@) == grid@[r]@,
        forall|r: int| 0 <= r < grid.len() ==> maximal(#[trigger] lines@[r]@),
{
    let mut lines: Vec<Vec<Span>> = Vec::new();
    let mut r: usize = 0;
    while r < grid.len()
        invariant
            r <= grid.len(),
            lines.len() == r,
            forall|k: int| 0 <= k < r ==> cells_of(#[trigger] lines@[k]@) == grid@[k]@,
            forall|k: int| 0 <= k < r ==> maximal(#[trigger] lines@[k]@),
        decreases grid.len() - r,
    {
        let line = merge_cells(&grid[r]);
        lines.push(line);
        r += 1;
    }
    lines
}

/// `text` right-aligned in `w` columns, as `{:>w}` pads it: spaces in front
/// up to `w`, and the text whole when it is already as wide.
pub open spec fn right_aligned_spec(text: Seq<char>, w: nat) -> Seq<char> {
    if text.len() >= w { text } else { repeated(' ', (w - text.len()) as nat) + text }
}

/// `text` left-aligned in `w` columns, as `{:<w}` pads it.
pub open spec fn left_aligned_spec(text: Seq<char>, w: nat) -> Seq<char> {
    if text.len() >= w { text } else { text + repeated(' ', (w - text.len()) as nat) }
}

/// How many characters a string holds.
pub fn char_count(s: &str) -> (n: usize)
    ensures
        n == s@.len(),
{
    s.unicode_len()
}

pub fn right_aligned(text: &str, w: usize) -> (s: String)
    ensures
        s@ == right_aligned_spec(text@, w as nat),
{
    let n = char_count(text);
    if n >= w {
        String::from_str(text)
    } else {
        let mut s = repeat_char(' ', w - n);
        s.append(text);
        s
    }
}

pub fn left_aligned(text: &str, w: usize) -> (s: String)
    ensures
        s@ == left_aligned_spec(text@, w as nat),
{
    let n = char_count(text);
    let mut s = String::from_str(text);
    if n < w {
        let pad = repeat_char(' ', w - n);
        s.append(pad.as_str());
    }
    s
}

/// `text` centred in `w` columns, as `{:^w}` pads it: the odd space goes
/// on the right.
pub open spec fn centered_spec(text: Seq<char>, w: nat) -> Seq<char> {
    if text.len() >= w {
        text
    } else {
        let gap = (w - text.len()) as nat;
        repeated(' ', gap / 2) + text + repeated(' ', (gap - gap / 2) as nat)
    }
}

pub fn centered(text: &str, w: usize) -> (s: String)
    ensures
        s@ == centered_spec(text@, w as nat),
{
    let n = char_count(text);
    if n >= w {
        return String::from_str(text);
    }
    let gap = w - n;
    let mut s = repeat_char(' ', gap / 2);
    s.append(text);
    let tail = repeat_char(' ', gap - gap / 2);
    s.append(tail.as_str());
    s
}

/// A string made of two strings end to end.
pub fn concatenated(a: &str, b: &str) -> (s: String)
    ensures
        s@ == a@ + b@,
{
    let mut s = String::from_str(a);
    s.append(b);
    s
}

} // verus!
