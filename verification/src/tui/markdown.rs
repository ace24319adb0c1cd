//! A small, tolerant Markdown renderer that turns assistant replies into
//! width-wrapped, styled [`Line`]s.
//!
//! It covers what chat models routinely emit — headings, bold/italic/inline
//! code, fenced code blocks, bullet/numbered lists, blockquotes and horizontal
//! rules — and degrades gracefully on anything else (including the
//! half-finished markup seen mid-stream).
//!
//! The text of a line is handled as a sequence of cells, each a character with
//! its style; a rendered [`Line`] merges neighbouring cells of equal style into
//! one span.
use vstd::prelude::*;

use crate::text::{chars_of, is_digit, is_whitespace, is_ws, slice_chars, string_of, trim_start, trim_start_spec};
use crate::tui::style::{line_view, lines_view, spans_text, spans_view, Color, Line, Modifier, Span, Style};

verus! {

/// A character with the style it is drawn in.
pub type Cell = (char, Style);

// --- colours and styles ------------------------------------------------------

pub open spec fn code_fg_spec() -> Color {
    Color::Rgb(171, 178, 191)
}

pub open spec fn code_bg_spec() -> Color {
    Color::Rgb(40, 44, 52)
}

pub open spec fn inline_code_fg_spec() -> Color {
    Color::Rgb(229, 192, 123)
}

/// Foreground of fenced code blocks.
pub fn code_fg() -> (c: Color)
    ensures
        c == code_fg_spec(),
{
    Color::Rgb(171, 178, 191)
}

/// Background of fenced code blocks and inline code.
pub fn code_bg() -> (c: Color)
    ensures
        c == code_bg_spec(),
{
    Color::Rgb(40, 44, 52)
}

/// Foreground of inline code.
pub fn inline_code_fg() -> (c: Color)
    ensures
        c == inline_code_fg_spec(),
{
    Color::Rgb(229, 192, 123)
}

/// `text`, every char drawn in `style`.
pub open spec fn styled(text: Seq<char>, style: Style) -> Seq<Cell> {
    text.map_values(|c: char| (c, style))
}

/// The chars of a run of cells.
pub open spec fn cell_chars(cells: Seq<Cell>) -> Seq<char> {
    cells.map_values(|x: Cell| x.0)
}

// --- inline parsing ------------------------------------------------------------

/// `char::is_alphanumeric`: `c` is alphabetic or numeric in the Unicode sense.
pub uninterp spec fn char_alphanumeric(c: char) -> bool;

/// `char::is_alphanumeric`, whose answer is [`char_alphanumeric`].
#[verifier::external_body]
fn is_alphanumeric(c: char) -> (r: bool)
    ensures
        r == char_alphanumeric(c),
{
    c.is_alphanumeric()
}

/// The first index at or after `start` holding `t`.
pub open spec fn find_char_spec(c: Seq<char>, start: int, t: char) -> Option<int>
    decreases c.len() - start,
{
    if start < 0 || start >= c.len() {
        None
    } else if c[start] == t {
        Some(start)
    } else {
        find_char_spec(c, start + 1, t)
    }
}

/// `len` copies of `t` start at `i`.
pub open spec fn run_at(c: Seq<char>, i: int, t: char, len: int) -> bool {
    0 <= i && i + len <= c.len() && forall|k: int| i <= k < i + len ==> c[k] == t
}

/// A run of exactly `len` copies of `t` starts at `i`: the copies are not
/// preceded or followed by another `t`.
pub open spec fn exact_run_at(c: Seq<char>, i: int, t: char, len: int) -> bool {
    &&& run_at(c, i, t, len)
    &&& (i == 0 || c[i - 1] != t)
    &&& (i + len == c.len() || c[i + len] != t)
}

/// The first index at or after `start` where a run of exactly `len` copies of
/// `t` begins.
pub open spec fn find_run_spec(c: Seq<char>, start: int, t: char, len: int) -> Option<int>
    decreases c.len() - start,
{
    if start < 0 || len < 1 || start + len > c.len() {
        None
    } else if exact_run_at(c, start, t, len) {
        Some(start)
    } else {
        find_run_spec(c, start + 1, t, len)
    }
}

/// An `_` may open emphasis only after a non-alphanumeric char.
pub open spec fn left_boundary_spec(c: Seq<char>, i: int) -> bool {
    i == 0 || !char_alphanumeric(c[i - 1])
}

/// An `_` may close emphasis only before a non-alphanumeric char or the end.
pub open spec fn right_boundary_spec(c: Seq<char>, i: int) -> bool {
    i >= c.len() || !char_alphanumeric(c[i])
}

/// If an emphasis run of `len` delimiters (`*` or `_`) opens at `start`, the
/// index of the closing run and `len`. A longer opening run is left to the
/// wider match; `_` runs need non-alphanumeric neighbours, so `snake_case`
/// words stay as they are; empty emphasis is no emphasis.
pub open spec fn emphasis_spec(c: Seq<char>, start: int, len: int) -> Option<(int, int)> {
    if !(0 <= start < c.len()) {
        None
    } else {
        let m = c[start];
        if m != '*' && m != '_' {
            None
        } else if !run_at(c, start, m, len) {
            None
        } else if start + len < c.len() && c[start + len] == m {
            None
        } else if m == '_' && !left_boundary_spec(c, start) {
            None
        } else {
            match find_run_spec(c, start + len, m, len) {
                None => None,
                Some(end) => if end <= start + len {
                    None
                } else if m == '_' && !right_boundary_spec(c, end + len) {
                    None
                } else {
                    Some((end, len))
                },
            }
        }
    }
}

/// The style of inline code over `base`.
pub open spec fn inline_code_style(base: Style) -> Style {
    base.with_fg(inline_code_fg_spec()).with_bg(code_bg_spec())
}

/// The style of bold text over `base`.
pub open spec fn bold_style(base: Style) -> Style {
    base.with_modifier(Modifier { bold: true, italic: false, underlined: false })
}

/// The style of italic text over `base`.
pub open spec fn italic_style(base: Style) -> Style {
    base.with_modifier(Modifier { bold: false, italic: true, underlined: false })
}

pub proof fn lemma_find_char_range(c: Seq<char>, start: int, t: char)
    ensures
        find_char_spec(c, start, t) matches Some(e) ==> start <= e < c.len() && c[e] == t,
        find_char_spec(c, start, t) is None && 0 <= start ==> forall|k: int|
            start <= k < c.len() ==> c[k] != t,
    decreases c.len() - start,
{
    if !(start < 0 || start >= c.len()) && c[start] != t {
        lemma_find_char_range(c, start + 1, t);
    }
}

pub proof fn lemma_find_run_range(c: Seq<char>, start: int, t: char, len: int)
    ensures
        find_run_spec(c, start, t, len) matches Some(e) ==> start <= e && exact_run_at(c, e, t, len),
    decreases c.len() - start,
{
    if !(start < 0 || len < 1 || start + len > c.len()) && !exact_run_at(c, start, t, len) {
        lemma_find_run_range(c, start + 1, t, len);
    }
}

pub proof fn lemma_emphasis_range(c: Seq<char>, start: int, len: int)
    requires
        len >= 1,
    ensures
        emphasis_spec(c, start, len) matches Some((e, l)) ==> l == len && start + len < e && e
            + len <= c.len(),
{
    if 0 <= start < c.len() {
        lemma_find_run_range(c, start + len, c[start], len);
    }
}

/// The cells that the inline markup of `c[i..]` renders to over `base`:
/// `` `code` ``, `**bold**`/`__bold__` and `*italic*`/`_italic_` spans lose
/// their delimiters and gain their style; anything else, unterminated markers
/// included, stays literal text in `base`.
pub open spec fn inline_spec(c: Seq<char>, i: int, base: Style) -> Seq<Cell>
    decreases c.len() - i,
{
    if i < 0 || i >= c.len() {
        seq![]
    } else if c[i] == '`' && find_char_spec(c, i + 1, '`') is Some {
        let end = find_char_spec(c, i + 1, '`')->0;
        proof {
            lemma_find_char_range(c, i + 1, '`');
        }
        styled(c.subrange(i + 1, end), inline_code_style(base)) + inline_spec(c, end + 1, base)
    } else if emphasis_spec(c, i, 2) is Some {
        let end = emphasis_spec(c, i, 2).unwrap().0;
        proof {
            lemma_emphasis_range(c, i, 2);
        }
        styled(c.subrange(i + 2, end), bold_style(base)) + inline_spec(c, end + 2, base)
    } else if emphasis_spec(c, i, 1) is Some {
        let end = emphasis_spec(c, i, 1).unwrap().0;
        proof {
            lemma_emphasis_range(c, i, 1);
        }
        styled(c.subrange(i + 1, end), italic_style(base)) + inline_spec(c, end + 1, base)
    } else {
        seq![(c[i], base)] + inline_spec(c, i + 1, base)
    }
}

pub fn find_char(chars: &[char], start: usize, target: char) -> (r: Option<usize>)
    ensures
        r matches Some(e) ==> find_char_spec(chars@, start as int, target) == Some(e as int),
        r is None ==> find_char_spec(chars@, start as int, target) is None,
{
    let mut i = start;
    while i < chars.len()
        invariant
            start <= i,
            find_char_spec(chars@, start as int, target) == find_char_spec(
                chars@,
                i as int,
                target,
            ),
        decreases chars.len() - i,
    {
        if chars[i] == target {
            return Some(i);
        }
        i += 1;
    }
    None
}

/// Whether `len` copies of `target` start at `i`.
fn run_at_exec(chars: &[char], i: usize, target: char, len: usize) -> (r: bool)
    requires
        i + len <= chars.len(),
    ensures
        r == run_at(chars@, i as int, target, len as int),
{
    let mut o: usize = 0;
    while o < len
        invariant
            o <= len,
            i + len <= chars.len(),
            forall|k: int| i <= k < i + o ==> chars@[k] == target,
        decreases len - o,
    {
        if chars[i + o] != target {
            return false;
        }
        o += 1;
    }
    true
}

/// Find the start index of a run of exactly `len` `target` chars at/after `start`.
fn find_run(chars: &[char], start: usize, target: char, len: usize) -> (r: Option<usize>)
    requires
        len >= 1,
    ensures
        r matches Some(e) ==> find_run_spec(chars@, start as int, target, len as int) == Some(
            e as int,
        ),
        r is None ==> find_run_spec(chars@, start as int, target, len as int) is None,
{
    let mut i = start;
    while i <= chars.len() && len <= chars.len() - i
        invariant
            start <= i,
            len >= 1,
            find_run_spec(chars@, start as int, target, len as int) == find_run_spec(
                chars@,
                i as int,
                target,
                len as int,
            ),
        decreases chars.len() - i,
    {
        if run_at_exec(chars, i, target, len) && (i == 0 || chars[i - 1] != target) && (i + len
            == chars.len() || chars[i + len] != target) {
            return Some(i);
        }
        i += 1;
    }
    None
}

fn left_boundary(chars: &[char], i: usize) -> (r: bool)
    requires
        i <= chars.len(),
    ensures
        r == left_boundary_spec(chars@, i as int),
{
    i == 0 || !is_alphanumeric(chars[i - 1])
}

fn right_boundary(chars: &[char], i: usize) -> (r: bool)
    ensures
        r == right_boundary_spec(chars@, i as int),
{
    i >= chars.len() || !is_alphanumeric(chars[i])
}

/// If an emphasis run of `len` delimiters (`*`/`_`) opens at `start`, return the
/// closing delimiter index and the delimiter length. Underscore runs require
/// non-alphanumeric boundaries so `snake_case` words are left untouched.
fn emphasis_span(chars: &[char], start: usize, len: usize) -> (r: Option<(usize, usize)>)
    requires
        1 <= len <= 2,
    ensures
        r matches Some((e, l)) ==> emphasis_spec(chars@, start as int, len as int) == Some(
            (e as int, l as int),
        ),
        r is None ==> emphasis_spec(chars@, start as int, len as int) is None,
{
    if start >= chars.len() {
        return None;
    }
    let marker = chars[start];
    if marker != '*' && marker != '_' {
        return None;
    }
    if len > chars.len() || start > chars.len() - len || !run_at_exec(chars, start, marker, len) {
        return None;
    }
    if start + len < chars.len() && chars[start + len] == marker {
        return None;
    }
    if marker == '_' && !left_boundary(chars, start) {
        return None;
    }
    let end = match find_run(chars, start + len, marker, len) {
        Some(e) => e,
        None => {
            return None;
        },
    };
    proof {
        lemma_find_run_range(chars@, start + len, marker, len as int);
    }
    if end <= start + len {
        return None;
    }
    if marker == '_' && !right_boundary(chars, end + len) {
        return None;
    }
    Some((end, len))
}

/// Push `text[a..b]` onto `out`, each char in `style`.
fn push_styled(out: &mut Vec<Cell>, text: &[char], a: usize, b: usize, style: Style)
    requires
        a <= b <= text.len(),
    ensures
        final(out)@ == old(out)@ + styled(text@.subrange(a as int, b as int), style),
{
    let mut i = a;
    while i < b
        invariant
            a <= i <= b <= text.len(),
            out@ == old(out)@ + styled(text@.subrange(a as int, i as int), style),
        decreases b - i,
    {
        out.push((text[i], style));
        assert(styled(text@.subrange(a as int, i + 1), style) =~= styled(
            text@.subrange(a as int, i as int),
            style,
        ).push((text@[i as int], style)));
        i += 1;
    }
}

/// Split a line of text into styled cells, resolving `code`, **bold**, and
/// *italic* spans. Unterminated markers are left as literal text.
fn parse_inline(chars: &[char], base: Style) -> (cells: Vec<Cell>)
    ensures
        cells@ == inline_spec(chars@, 0, base),
{
    let mut out: Vec<Cell> = Vec::new();
    let mut i: usize = 0;
    while i < chars.len()
        invariant
            i <= chars.len(),
            out@ + inline_spec(chars@, i as int, base) == inline_spec(chars@, 0, base),
        decreases chars.len() - i,
    {
        let c = chars[i];
        if c == '`' {
            if let Some(end) = find_char(chars, i + 1, '`') {
                proof {
                    lemma_find_char_range(chars@, i + 1, '`');
                }
                let ghost before = out@;
                let code_style = base.fg(inline_code_fg()).bg(code_bg());
                push_styled(&mut out, chars, i + 1, end, code_style);
                assert(out@ + inline_spec(chars@, end + 1, base) =~= before + inline_spec(
                    chars@,
                    i as int,
                    base,
                ));
                i = end + 1;
                continue;
            }
        }
        if let Some((end, fence_len)) = emphasis_span(chars, i, 2) {
            proof {
                lemma_emphasis_range(chars@, i as int, 2);
            }
            let ghost before = out@;
            push_styled(&mut out, chars, i + fence_len, end, base.add_modifier(Modifier::bold()));
            assert(out@ + inline_spec(chars@, end + 2, base) =~= before + inline_spec(
                chars@,
                i as int,
                base,
            ));
            i = end + fence_len;
            continue;
        }
        if let Some((end, fence_len)) = emphasis_span(chars, i, 1) {
            proof {
                lemma_emphasis_range(chars@, i as int, 1);
            }
            let ghost before = out@;
            push_styled(
                &mut out,
                chars,
                i + fence_len,
                end,
                base.add_modifier(Modifier::italic()),
            );
            assert(out@ + inline_spec(chars@, end + 1, base) =~= before + inline_spec(
                chars@,
                i as int,
                base,
            ));
            i = end + fence_len;
            continue;
        }
        let ghost before = out@;
        out.push((c, base));
        assert(out@ + inline_spec(chars@, i + 1, base) =~= before + inline_spec(
            chars@,
            i as int,
            base,
        ));
        i += 1;
    }
    assert(out@ + inline_spec(chars@, i as int, base) == out@ + Seq::<Cell>::empty());
    assert(out@ + Seq::<Cell>::empty() =~= out@);
    out
}

// --- block helpers ---------------------------------------------------------------

/// A code fence opens or closes with three backticks or three tildes.
pub open spec fn is_fence_spec(l: Seq<char>) -> bool {
    l.len() >= 3 && ((l[0] == '`' && l[1] == '`' && l[2] == '`') || (l[0] == '~' && l[1] == '~'
        && l[2] == '~'))
}

fn is_fence(line: &[char]) -> (r: bool)
    ensures
        r == is_fence_spec(line@),
{
    line.len() >= 3 && ((line[0] == '`' && line[1] == '`' && line[2] == '`') || (line[0] == '~'
        && line[1] == '~' && line[2] == '~'))
}

/// Number of non-whitespace chars in `s`.
pub open spec fn count_nonws(s: Seq<char>) -> nat
    decreases s.len(),
{
    if s.len() == 0 {
        0
    } else {
        count_nonws(s.drop_last()) + if is_ws(s.last()) {
            0nat
        } else {
            1nat
        }
    }
}

/// Every char of `s` is whitespace or `m`.
pub open spec fn all_ws_or(s: Seq<char>, m: char) -> bool {
    forall|i: int| 0 <= i < s.len() ==> is_ws(#[trigger] s[i]) || s[i] == m
}

/// A horizontal rule: at least three of one of `-`, `*`, `_`, with only
/// whitespace between them; a line holding `|` is a table row, not a rule.
pub open spec fn is_hr_spec(l: Seq<char>) -> bool {
    &&& !l.contains('|')
    &&& count_nonws(l) >= 3
    &&& (all_ws_or(l, '-') || all_ws_or(l, '*') || all_ws_or(l, '_'))
}

pub proof fn lemma_all_ws_or_push(s: Seq<char>, c: char, m: char)
    ensures
        all_ws_or(s.push(c), m) == (all_ws_or(s, m) && (is_ws(c) || c == m)),
        s.push(c).contains('|') == (s.contains('|') || c == '|'),
        count_nonws(s.push(c)) == count_nonws(s) + if is_ws(c) {
            0nat
        } else {
            1nat
        },
{
    assert(s.push(c).drop_last() == s);
    if all_ws_or(s, m) && (is_ws(c) || c == m) {
        assert forall|i: int| 0 <= i < s.push(c).len() implies is_ws(#[trigger] s.push(c)[i])
            || s.push(c)[i] == m by {
            if i < s.len() {
                assert(s.push(c)[i] == s[i]);
            }
        }
    }
    if all_ws_or(s.push(c), m) {
        assert(s.push(c)[s.len() as int] == c);
        assert forall|i: int| 0 <= i < s.len() implies is_ws(#[trigger] s[i]) || s[i] == m by {
            assert(s.push(c)[i] == s[i]);
        }
    }
    if s.contains('|') {
        let k = choose|k: int| 0 <= k < s.len() && s[k] == '|';
        assert(s.push(c)[k] == '|');
    }
    if s.push(c).contains('|') && c != '|' {
        let k = choose|k: int| 0 <= k < s.push(c).len() && s.push(c)[k] == '|';
        assert(s[k] == '|');
    }
}

fn is_hr(line: &[char]) -> (r: bool)
    ensures
        r == is_hr_spec(line@),
{
    let mut count: usize = 0;
    let mut dashes = true;
    let mut stars = true;
    let mut unders = true;
    let mut i: usize = 0;
    while i < line.len()
        invariant
            i <= line.len(),
            count == count_nonws(line@.take(i as int)),
            count <= i,
            !line@.take(i as int).contains('|'),
            dashes == all_ws_or(line@.take(i as int), '-'),
            stars == all_ws_or(line@.take(i as int), '*'),
            unders == all_ws_or(line@.take(i as int), '_'),
        decreases line.len() - i,
    {
        let c = line[i];
        proof {
            assert(line@.take(i + 1) == line@.take(i as int).push(c));
            lemma_all_ws_or_push(line@.take(i as int), c, '-');
            lemma_all_ws_or_push(line@.take(i as int), c, '*');
            lemma_all_ws_or_push(line@.take(i as int), c, '_');
        }
        if c == '|' {
            assert(line@.contains('|')) by {
                assert(line@[i as int] == '|');
            }
            return false;
        }
        if !is_whitespace(c) {
            count += 1;
            if c != '-' {
                dashes = false;
            }
            if c != '*' {
                stars = false;
            }
            if c != '_' {
                unders = false;
            }
        }
        i += 1;
    }
    assert(line@.take(line.len() as int) == line@);
    count >= 3 && (dashes || stars || unders)
}

/// Number of leading copies of `t` in `s`.
pub open spec fn lead_run(s: Seq<char>, t: char) -> nat
    decreases s.len(),
{
    if s.len() > 0 && s[0] == t {
        1 + lead_run(s.drop_first(), t)
    } else {
        0
    }
}

pub proof fn lemma_lead_run(s: Seq<char>, t: char)
    ensures
        lead_run(s, t) <= s.len(),
        forall|i: int| 0 <= i < lead_run(s, t) ==> #[trigger] s[i] == t,
        lead_run(s, t) < s.len() ==> s[lead_run(s, t) as int] != t,
    decreases s.len(),
{
    if s.len() > 0 && s[0] == t {
        lemma_lead_run(s.drop_first(), t);
        assert forall|i: int| 0 <= i < lead_run(s, t) implies #[trigger] s[i] == t by {
            if i > 0 {
                assert(s[i] == s.drop_first()[i - 1]);
            }
        }
    }
}

/// Count the leading copies of `t`.
fn count_leading(line: &[char], t: char) -> (n: usize)
    ensures
        n == lead_run(line@, t),
{
    let mut i: usize = 0;
    assert(line@.skip(0) == line@);
    while i < line.len() && line[i] == t
        invariant
            i <= line.len(),
            lead_run(line@, t) == i + lead_run(line@.skip(i as int), t),
        decreases line.len() - i,
    {
        assert(line@.skip(i as int).drop_first() == line@.skip(i + 1));
        i += 1;
    }
    if i < line.len() {
        assert(line@.skip(i as int)[0] == line@[i as int]);
    }
    i
}

/// The text of an ATX heading: one to six `#`s, then nothing or a space, with
/// the hashes and the whitespace after them stripped.
pub open spec fn heading_spec(l: Seq<char>) -> Option<Seq<char>> {
    let h = lead_run(l, '#');
    if 1 <= h <= 6 {
        let rest = l.skip(h as int);
        if rest.len() == 0 {
            Some(seq![])
        } else if rest[0] == ' ' {
            Some(trim_start_spec(rest.skip(1)))
        } else {
            None
        }
    } else {
        None
    }
}

/// Strip the leading `#`s of an ATX heading, returning the heading text.
fn heading(line: &[char]) -> (r: Option<Vec<char>>)
    ensures
        r matches Some(t) ==> heading_spec(line@) == Some(t@),
        r is None ==> heading_spec(line@) is None,
{
    let hashes = count_leading(line, '#');
    proof {
        lemma_lead_run(line@, '#');
    }
    if 1 <= hashes && hashes <= 6 {
        let rest = slice_chars(line, hashes, line.len());
        assert(rest@ == line@.skip(hashes as int));
        if rest.len() == 0 {
            return Some(Vec::new());
        }
        if rest[0] == ' ' {
            let after = slice_chars(&rest, 1, rest.len());
            assert(after@ == rest@.skip(1));
            return Some(trim_start(&after));
        }
    }
    None
}

/// A blockquote line starts with `> ` or `>`; the quoted text follows it.
pub open spec fn blockquote_spec(l: Seq<char>) -> Option<Seq<char>> {
    if l.len() >= 2 && l[0] == '>' && l[1] == ' ' {
        Some(l.skip(2))
    } else if l.len() >= 1 && l[0] == '>' {
        Some(l.skip(1))
    } else {
        None
    }
}

fn blockquote(line: &[char]) -> (r: Option<Vec<char>>)
    ensures
        r matches Some(t) ==> blockquote_spec(line@) == Some(t@),
        r is None ==> blockquote_spec(line@) is None,
{
    if line.len() >= 2 && line[0] == '>' && line[1] == ' ' {
        Some(slice_chars(line, 2, line.len()))
    } else if line.len() >= 1 && line[0] == '>' {
        Some(slice_chars(line, 1, line.len()))
    } else {
        None
    }
}

/// Number of leading ASCII digits.
pub open spec fn lead_digits(s: Seq<char>) -> nat
    decreases s.len(),
{
    if s.len() > 0 && is_digit(s[0]) {
        1 + lead_digits(s.drop_first())
    } else {
        0
    }
}

pub proof fn lemma_lead_digits(s: Seq<char>)
    ensures
        lead_digits(s) <= s.len(),
    decreases s.len(),
{
    if s.len() > 0 && is_digit(s[0]) {
        lemma_lead_digits(s.drop_first());
    }
}

/// The bullet shown for `-`, `*` and `+` items.
pub open spec fn bullet_marker() -> Seq<char> {
    seq!['\u{2022}', ' ']
}

/// A list item: a `-`, `*` or `+` bullet followed by a space, shown as `• `,
/// or digits followed by `. `, shown as they are. Gives the marker to show and
/// the item's text.
pub open spec fn list_item_spec(l: Seq<char>) -> Option<(Seq<char>, Seq<char>)> {
    if l.len() >= 2 && (l[0] == '-' || l[0] == '*' || l[0] == '+') && l[1] == ' ' {
        Some((bullet_marker(), l.skip(2)))
    } else {
        let d = lead_digits(l) as int;
        if d >= 1 && d + 2 <= l.len() && l[d] == '.' && l[d + 1] == ' ' {
            Some((l.take(d + 2), l.skip(d + 2)))
        } else {
            None
        }
    }
}

/// Detect a list item, returning the display marker and the remaining text.
fn list_item(line: &[char]) -> (r: Option<(Vec<char>, Vec<char>)>)
    ensures
        r matches Some((m, t)) ==> list_item_spec(line@) == Some((m@, t@)),
        r is None ==> list_item_spec(line@) is None,
{
    if line.len() >= 2 && (line[0] == '-' || line[0] == '*' || line[0] == '+') && line[1] == ' ' {
        let mut marker: Vec<char> = Vec::new();
        marker.push('\u{2022}');
        marker.push(' ');
        assert(marker@ =~= bullet_marker());
        return Some((marker, slice_chars(line, 2, line.len())));
    }
    let mut d: usize = 0;
    assert(line@.skip(0) == line@);
    while d < line.len() && '0' <= line[d] && line[d] <= '9'
        invariant
            d <= line.len(),
            lead_digits(line@) == d + lead_digits(line@.skip(d as int)),
        decreases line.len() - d,
    {
        assert(line@.skip(d as int).drop_first() == line@.skip(d + 1));
        d += 1;
    }
    if d < line.len() {
        assert(line@.skip(d as int)[0] == line@[d as int]);
    }
    if d >= 1 && d < line.len() && 2 <= line.len() - d && line[d] == '.' && line[d + 1] == ' ' {
        return Some((slice_chars(line, 0, d + 2), slice_chars(line, d + 2, line.len())));
    }
    None
}

// --- layout ---------------------------------------------------------------------

/// `n` spaces.
pub open spec fn spaces(n: int) -> Seq<char> {
    Seq::new(if n < 0 { 0 } else { n as nat }, |i: int| ' ')
}

/// `n` copies of `c`.
pub open spec fn repeat(c: char, n: int) -> Seq<char> {
    Seq::new(if n < 0 { 0 } else { n as nat }, |i: int| c)
}

/// `n` copies of `c`.
fn repeat_char(c: char, n: usize) -> (r: Vec<char>)
    ensures
        r@ == repeat(c, n as int),
{
    let mut r: Vec<char> = Vec::new();
    let mut i: usize = 0;
    while i < n
        invariant
            i <= n,
            r@ == repeat(c, i as int),
        decreases n - i,
    {
        r.push(c);
        assert(r@ =~= repeat(c, i + 1));
        i += 1;
    }
    r
}

/// The style of fenced code.
pub open spec fn code_style() -> Style {
    Style::plain().with_fg(code_fg_spec()).with_bg(code_bg_spec())
}

/// A fenced-code line cut into pieces of `w` chars, the last one padded with
/// spaces to `w`; an empty line becomes one piece of `w` spaces.
pub open spec fn code_chunks(raw: Seq<char>, w: int) -> Seq<Seq<char>>
    decreases raw.len(),
{
    if w < 1 || raw.len() <= w {
        seq![raw + spaces(w - raw.len())]
    } else {
        seq![raw.take(w)] + code_chunks(raw.skip(w), w)
    }
}

/// The lines of a fenced-code line: each piece in the code style.
pub open spec fn code_lines(raw: Seq<char>, w: int) -> Seq<Seq<(Seq<char>, Style)>> {
    code_chunks(raw, w).map_values(|p: Seq<char>| seq![(p, code_style())])
}

pub proof fn lemma_lines_view_push(ls: Seq<Line>, l: Line)
    ensures
        lines_view(ls.push(l)) == lines_view(ls).push(line_view(l)),
{
    assert(lines_view(ls.push(l)) =~= lines_view(ls).push(line_view(l)));
}

/// A fenced-code line: rendered verbatim on a solid background, hard-wrapped.
fn push_code_line(out: &mut Vec<Line>, raw: &[char], width: usize)
    requires
        width >= 1,
    ensures
        lines_view(final(out)@) == lines_view(old(out)@) + code_lines(raw@, width as int),
{
    let style = Style::new().fg(code_fg()).bg(code_bg());
    let mut start: usize = 0;
    assert(raw@.skip(0) == raw@);
    loop
        invariant_except_break
            start <= raw.len(),
            style == code_style(),
            width >= 1,
            lines_view(out@) + code_lines(raw@.skip(start as int), width as int) == lines_view(
                old(out)@,
            ) + code_lines(raw@, width as int),
        ensures
            lines_view(out@) == lines_view(old(out)@) + code_lines(raw@, width as int),
        decreases raw.len() - start,
    {
        let ghost rest = raw@.skip(start as int);
        let ghost before = out@;
        if raw.len() - start <= width {
            let mut text = slice_chars(raw, start, raw.len());
            let pad = repeat_char(' ', width - (raw.len() - start));
            let mut k: usize = 0;
            let ghost t0 = text@;
            while k < pad.len()
                invariant
                    k <= pad.len(),
                    text@ == t0 + pad@.take(k as int),
                decreases pad.len() - k,
            {
                text.push(pad[k]);
                assert(pad@.take(k + 1) == pad@.take(k as int).push(pad@[k as int]));
                k += 1;
            }
            assert(pad@.take(pad.len() as int) == pad@);
            assert(text@ =~= rest + spaces(width - rest.len()));
            out.push(Line::from_span(Span::styled(&text, style)));
            proof {
                lemma_lines_view_push(before, out@.last());
                assert(out@ == before.push(out@.last()));
                assert(code_lines(rest, width as int) =~= seq![seq![(text@, code_style())]]);
            }
            break;
        }
        let piece = slice_chars(raw, start, start + width);
        out.push(Line::from_span(Span::styled(&piece, style)));
        proof {
            lemma_lines_view_push(before, out@.last());
            assert(out@ == before.push(out@.last()));
            assert(rest.take(width as int) =~= piece@);
            assert(rest.skip(width as int) =~= raw@.skip(start + width));
            assert(code_lines(rest, width as int) =~= seq![seq![(piece@, code_style())]] + code_lines(
                raw@.skip(start + width),
                width as int,
            ));
        }
        start += width;
    }
}

/// A blank cell separates words.
pub open spec fn is_space_cell(x: Cell) -> bool {
    x.0 == ' '
}

/// End of the run of cells starting at `i` that are all spaces or all
/// non-spaces.
pub open spec fn run_end(c: Seq<Cell>, i: int) -> int
    decreases c.len() - i,
{
    if 0 <= i && i + 1 < c.len() && is_space_cell(c[i + 1]) == is_space_cell(c[i]) {
        run_end(c, i + 1)
    } else {
        i + 1
    }
}

pub proof fn lemma_run_end(c: Seq<Cell>, i: int)
    requires
        0 <= i < c.len(),
    ensures
        i < run_end(c, i) <= c.len(),
        forall|k: int| i <= k < run_end(c, i) ==> is_space_cell(#[trigger] c[k]) == is_space_cell(
            c[i],
        ),
        run_end(c, i) < c.len() ==> is_space_cell(c[run_end(c, i)]) != is_space_cell(c[i]),
    decreases c.len() - i,
{
    if i + 1 < c.len() && is_space_cell(c[i + 1]) == is_space_cell(c[i]) {
        lemma_run_end(c, i + 1);
    }
}

/// `[i, j)` cut into consecutive ranges of `cw` cells, the last possibly
/// shorter.
pub open spec fn chunk_ranges(i: int, j: int, cw: int) -> Seq<(int, int)>
    decreases j - i,
{
    if cw < 1 || j - i <= cw {
        seq![(i, j)]
    } else {
        seq![(i, i + cw)] + chunk_ranges(i + cw, j, cw)
    }
}

/// The segments of `c[i..]` as index ranges: alternating runs of spaces and
/// words, each word longer than `cw` cut into pieces of `cw`.
pub open spec fn segments(c: Seq<Cell>, i: int, cw: int) -> Seq<(int, int)>
    decreases c.len() - i,
{
    if i < 0 || i >= c.len() {
        seq![]
    } else {
        let j = run_end(c, i);
        proof {
            lemma_run_end(c, i);
        }
        (if is_space_cell(c[i]) {
            seq![(i, j)]
        } else {
            chunk_ranges(i, j, cw)
        }) + segments(c, j, cw)
    }
}

/// One step of word wrapping: place segment `seg` of `c` given the lines done
/// so far and the line being filled. Spaces never start a line and are
/// dropped where a line breaks; a word that does not fit starts a new line,
/// which begins with `prefix`.
pub open spec fn layout_step(
    c: Seq<Cell>,
    width: int,
    prefix: Seq<Cell>,
    st: (Seq<Seq<Cell>>, Seq<Cell>),
    seg: (int, int),
) -> (Seq<Seq<Cell>>, Seq<Cell>) {
    let s = c.subrange(seg.0, seg.1);
    let lines = st.0;
    let line = st.1;
    if is_space_cell(c[seg.0]) {
        if line.len() == 0 {
            st
        } else if line.len() + s.len() <= width {
            (lines, line + s)
        } else {
            (lines.push(line), prefix)
        }
    } else {
        if line.len() != 0 && line.len() + s.len() > width {
            (lines.push(line), prefix + s)
        } else {
            (lines, line + s)
        }
    }
}

/// Wrapping state after placing `segs[k..]`.
pub open spec fn layout(
    c: Seq<Cell>,
    segs: Seq<(int, int)>,
    k: int,
    width: int,
    prefix: Seq<Cell>,
    st: (Seq<Seq<Cell>>, Seq<Cell>),
) -> (Seq<Seq<Cell>>, Seq<Cell>)
    decreases segs.len() - k,
{
    if k < 0 || k >= segs.len() {
        st
    } else {
        layout(c, segs, k + 1, width, prefix, layout_step(c, width, prefix, st, segs[k]))
    }
}

/// Width available to one word piece after the continuation prefix.
pub open spec fn chunk_width(width: int, prefix_len: int) -> int {
    if width - prefix_len >= 1 {
        width - prefix_len
    } else {
        1
    }
}

/// The cells of `c` word-wrapped to `width`, continuation lines starting with
/// `prefix`; a trailing line holding nothing but the prefix is dropped.
pub open spec fn flow_spec(c: Seq<Cell>, width: int, prefix: Seq<Cell>) -> Seq<Seq<Cell>> {
    let cw = chunk_width(width, prefix.len() as int);
    let st = layout(c, segments(c, 0, cw), 0, width, prefix, (seq![], seq![]));
    if st.1.len() > prefix.len() {
        st.0.push(st.1)
    } else {
        st.0
    }
}

/// Cells merged into spans: each maximal run of equally styled cells becomes
/// one span.
pub open spec fn merge_runs(cells: Seq<Cell>) -> Seq<(Seq<char>, Style)>
    decreases cells.len(),
{
    if cells.len() == 0 {
        seq![]
    } else {
        let r = merge_runs(cells.drop_last());
        let x = cells.last();
        if r.len() > 0 && r.last().1 == x.1 {
            r.drop_last().push((r.last().0.push(x.0), x.1))
        } else {
            r.push((seq![x.0], x.1))
        }
    }
}

/// The lines of `flow_spec`, as spans.
pub open spec fn flow_lines(c: Seq<Cell>, width: int, prefix: Seq<Cell>) -> Seq<
    Seq<(Seq<char>, Style)>,
> {
    flow_spec(c, width, prefix).map_values(|l: Seq<Cell>| merge_runs(l))
}

/// Merge a run of styled chars into spans of contiguous equal style.
fn to_line(chars: &Vec<Cell>) -> (l: Line)
    ensures
        line_view(l) == merge_runs(chars@),
{
    let mut spans: Vec<Span> = Vec::new();
    let mut buf: Vec<char> = Vec::new();
    let mut current: Option<Style> = None;
    let mut i: usize = 0;
    while i < chars.len()
        invariant
            i <= chars.len(),
            current is None <==> i == 0,
            current is None ==> buf@.len() == 0 && spans@.len() == 0,
            current matches Some(s) ==> merge_runs(chars@.take(i as int)) == spans_view(spans@).push((buf@, s)),
        decreases chars.len() - i,
    {
        let (c, style) = chars[i];
        let ghost pre = chars@.take(i as int);
        assert(chars@.take(i + 1).drop_last() == pre);
        assert(chars@.take(i + 1).last() == (c, style));
        match current {
            Some(s) => {
                if s == style {
                    buf.push(c);
                } else {
                    let ghost old_spans = spans@;
                    spans.push(Span::styled(&buf, s));
                    proof {
                        assert(spans@ == old_spans.push(spans@.last()));
                        assert(spans_view(spans@) =~= spans_view(old_spans).push(
                            spans@.last()@,
                        ));
                    }
                    buf = Vec::new();
                    buf.push(c);
                    current = Some(style);
                }
            },
            None => {
                assert(merge_runs(pre) == Seq::<(Seq<char>, Style)>::empty());
                assert(spans_view(spans@) =~= Seq::<(Seq<char>, Style)>::empty());
                buf.push(c);
                current = Some(style);
            },
        }
        proof {
            assert(buf@ =~= merge_runs(chars@.take(i + 1)).last().0);
        }
        i += 1;
    }
    assert(chars@.take(chars.len() as int) == chars@);
    if let Some(s) = current {
        let ghost old_spans = spans@;
        spans.push(Span::styled(&buf, s));
        proof {
            assert(spans@ == old_spans.push(spans@.last()));
            assert(spans_view(spans@) =~= spans_view(old_spans).push(
                spans@.last()@,
            ));
        }
    } else {
        assert(spans_view(spans@) =~= Seq::<(Seq<char>, Style)>::empty());
    }
    Line { spans }
}

/// The ranges as integers.
pub open spec fn ranges_int(v: Seq<(usize, usize)>) -> Seq<(int, int)> {
    v.map_values(|p: (usize, usize)| (p.0 as int, p.1 as int))
}

/// Split the cells into word / whitespace segments, hard-splitting any word
/// longer than `chunk_w`, as index ranges.
fn segment_ranges(cells: &[Cell], chunk_w: usize) -> (segs: Vec<(usize, usize)>)
    requires
        chunk_w >= 1,
    ensures
        ranges_int(segs@) == segments(cells@, 0, chunk_w as int),
        forall|k: int| 0 <= k < segs@.len() ==> #[trigger] segs@[k].0 < segs@[k].1 <= cells@.len(),
{
    let n = cells.len();
    let mut segs: Vec<(usize, usize)> = Vec::new();
    let mut i: usize = 0;
    while i < n
        invariant
            i <= n == cells@.len(),
            chunk_w >= 1,
            ranges_int(segs@) + segments(cells@, i as int, chunk_w as int) == segments(
                cells@,
                0,
                chunk_w as int,
            ),
            forall|k: int| 0 <= k < segs@.len() ==> #[trigger] segs@[k].0 < segs@[k].1 <= n,
        decreases n - i,
    {
        let sp = cells[i].0 == ' ';
        let mut j = i + 1;
        while j < n && (cells[j].0 == ' ') == sp
            invariant
                i < j <= n == cells@.len(),
                sp == is_space_cell(cells@[i as int]),
                sp == is_space_cell(cells@[j - 1]),
                run_end(cells@, i as int) == run_end(cells@, j - 1),
            decreases n - j,
        {
            j += 1;
        }
        assert(run_end(cells@, i as int) == j);
        proof {
            lemma_run_end(cells@, i as int);
        }
        let ghost before = ranges_int(segs@);
        let ghost old_segs = segs@;
        if sp {
            segs.push((i, j));
            assert(segs@ == old_segs.push((i, j)));
            assert(ranges_int(segs@) =~= before.push((i as int, j as int)));
            assert(segments(cells@, i as int, chunk_w as int) =~= seq![(i as int, j as int)]
                + segments(cells@, j as int, chunk_w as int));
            assert(ranges_int(segs@) + segments(cells@, j as int, chunk_w as int) =~= before
                + segments(cells@, i as int, chunk_w as int));
        } else {
            let mut a = i;
            while j - a > chunk_w
                invariant
                    i <= a < j <= n,
                    chunk_w >= 1,
                    ranges_int(segs@) + chunk_ranges(a as int, j as int, chunk_w as int) == before
                        + chunk_ranges(i as int, j as int, chunk_w as int),
                    forall|k: int| 0 <= k < segs@.len() ==> #[trigger] segs@[k].0 < segs@[k].1 <= n,
                decreases j - a,
            {
                let ghost pre = ranges_int(segs@);
                let ghost pre_segs = segs@;
                segs.push((a, a + chunk_w));
                assert(segs@ == pre_segs.push((a, (a + chunk_w) as usize)));
                assert forall|q: int| 0 <= q < segs@.len() implies #[trigger] segs@[q].0 < segs@[q].1
                    <= n by {
                    if q < pre_segs.len() {
                        assert(segs@[q] == pre_segs[q]);
                    }
                }
                assert(ranges_int(segs@) =~= pre.push((a as int, a + chunk_w)));
                assert(chunk_ranges(a as int, j as int, chunk_w as int) =~= seq![
                    (a as int, a + chunk_w),
                ] + chunk_ranges(a + chunk_w, j as int, chunk_w as int));
                a += chunk_w;
            }
            let ghost pre = ranges_int(segs@);
            let ghost pre_segs = segs@;
            segs.push((a, j));
            assert(segs@ == pre_segs.push((a, j)));
            assert(ranges_int(segs@) =~= pre.push((a as int, j as int)));
            assert(chunk_ranges(a as int, j as int, chunk_w as int) =~= seq![(a as int, j as int)]);
            assert(segments(cells@, i as int, chunk_w as int) =~= chunk_ranges(
                i as int,
                j as int,
                chunk_w as int,
            ) + segments(cells@, j as int, chunk_w as int));
            assert(ranges_int(segs@) =~= before + chunk_ranges(i as int, j as int, chunk_w as int));
            assert(ranges_int(segs@) + segments(cells@, j as int, chunk_w as int) =~= before
                + segments(cells@, i as int, chunk_w as int));
        }
        i = j;
    }
    assert(ranges_int(segs@) + segments(cells@, i as int, chunk_w as int) =~= ranges_int(segs@));
    segs
}

/// Append `c[a..b]` to `line`.
fn extend_cells(line: &mut Vec<Cell>, c: &[Cell], a: usize, b: usize)
    requires
        a <= b <= c.len(),
    ensures
        final(line)@ == old(line)@ + c@.subrange(a as int, b as int),
{
    let mut i = a;
    while i < b
        invariant
            a <= i <= b <= c.len(),
            line@ == old(line)@ + c@.subrange(a as int, i as int),
        decreases b - i,
    {
        line.push(c[i]);
        assert(c@.subrange(a as int, i + 1) =~= c@.subrange(a as int, i as int).push(c@[i as int]));
        i += 1;
    }
}

/// A copy of `c`.
fn copy_cells(c: &[Cell]) -> (r: Vec<Cell>)
    ensures
        r@ == c@,
{
    let mut r: Vec<Cell> = Vec::new();
    extend_cells(&mut r, c, 0, c.len());
    assert(c@.subrange(0, c@.len() as int) =~= c@);
    assert(Seq::<Cell>::empty() + c@ =~= c@);
    r
}

pub proof fn lemma_merged_push(done: Seq<Seq<Cell>>, l: Seq<Cell>)
    ensures
        done.push(l).map_values(|x: Seq<Cell>| merge_runs(x)) == done.map_values(
            |x: Seq<Cell>| merge_runs(x),
        ).push(merge_runs(l)),
{
    assert(done.push(l).map_values(|x: Seq<Cell>| merge_runs(x)) =~= done.map_values(
        |x: Seq<Cell>| merge_runs(x),
    ).push(merge_runs(l)));
}

/// Word-wrap styled `cells` to `width`, prefixing continuation lines with
/// `prefix` (used to indent wrapped list items and blockquotes). Spaces keep
/// their original style so a multi-word styled run (e.g. inline code) stays
/// visually continuous.
fn flow(out: &mut Vec<Line>, cells: &[Cell], width: usize, prefix: &[Cell])
    requires
        width >= 1,
    ensures
        lines_view(final(out)@) == lines_view(old(out)@) + flow_lines(
            cells@,
            width as int,
            prefix@,
        ),
{
    let prefix_w = prefix.len();
    let chunk_w = if width > prefix_w {
        width - prefix_w
    } else {
        1
    };
    assert(chunk_w == chunk_width(width as int, prefix_w as int));
    let segs = segment_ranges(cells, chunk_w);
    let ghost sg = ranges_int(segs@);
    let ghost init: (Seq<Seq<Cell>>, Seq<Cell>) = (seq![], seq![]);
    let ghost mut done: Seq<Seq<Cell>> = seq![];
    let mut line: Vec<Cell> = Vec::new();
    let mut k: usize = 0;
    assert(lines_view(out@) =~= lines_view(old(out)@) + done.map_values(
        |x: Seq<Cell>| merge_runs(x),
    ));
    while k < segs.len()
        invariant
            k <= segs.len(),
            sg == ranges_int(segs@),
            sg == segments(cells@, 0, chunk_w as int),
            forall|q: int| 0 <= q < segs@.len() ==> #[trigger] segs@[q].0 < segs@[q].1 <= cells@.len(),
            layout(cells@, sg, 0, width as int, prefix@, init) == layout(
                cells@,
                sg,
                k as int,
                width as int,
                prefix@,
                (done, line@),
            ),
            lines_view(out@) == lines_view(old(out)@) + done.map_values(
                |x: Seq<Cell>| merge_runs(x),
            ),
        decreases segs.len() - k,
    {
        let (a, b) = segs[k];
        let len = b - a;
        assert(sg[k as int] == (a as int, b as int));
        let ghost st = (done, line@);
        let ghost next = layout_step(cells@, width as int, prefix@, st, sg[k as int]);
        let ghost before = out@;
        if cells[a].0 == ' ' {
            if line.len() == 0 {
            } else if len <= width && line.len() <= width - len {
                extend_cells(&mut line, cells, a, b);
            } else {
                out.push(to_line(&line));
                proof {
                    lemma_lines_view_push(before, out@.last());
                    assert(out@ == before.push(out@.last()));
                    lemma_merged_push(done, line@);
                    done = done.push(line@);
                }
                line = copy_cells(prefix);
            }
        } else {
            if line.len() != 0 && (len > width || line.len() > width - len) {
                out.push(to_line(&line));
                proof {
                    lemma_lines_view_push(before, out@.last());
                    assert(out@ == before.push(out@.last()));
                    lemma_merged_push(done, line@);
                    done = done.push(line@);
                }
                line = copy_cells(prefix);
                extend_cells(&mut line, cells, a, b);
            } else {
                extend_cells(&mut line, cells, a, b);
            }
        }
        assert((done, line@) == next);
        k += 1;
    }
    let ghost fin = layout(cells@, sg, 0, width as int, prefix@, init);
    assert(fin == (done, line@));
    let ghost before = out@;
    if line.len() > prefix.len() {
        out.push(to_line(&line));
        proof {
            lemma_lines_view_push(before, out@.last());
            assert(out@ == before.push(out@.last()));
            lemma_merged_push(done, line@);
            done = done.push(line@);
        }
    }
    assert(done == flow_spec(cells@, width as int, prefix@));
}

// --- rendering ----------------------------------------------------------------

/// A line's value: the text and style of each span.
pub type LineV = Seq<(Seq<char>, Style)>;

pub open spec fn dim_style() -> Style {
    Style::plain().with_fg(Color::DarkGray)
}

pub open spec fn heading_style() -> Style {
    Style::plain().with_fg(Color::Cyan).with_modifier(
        Modifier { bold: true, italic: false, underlined: true },
    )
}

pub open spec fn quote_style() -> Style {
    Style::plain().with_fg(Color::Gray).with_modifier(
        Modifier { bold: false, italic: true, underlined: false },
    )
}

pub open spec fn marker_style() -> Style {
    Style::plain().with_fg(Color::Yellow)
}

/// The bar that opens a blockquote line and its wrapped continuations.
pub open spec fn quote_bar() -> Seq<char> {
    seq!['\u{2502}', ' ']
}

/// How one source line renders, given whether a code fence is open: whether a
/// fence is open afterwards, and the display lines.
pub open spec fn render_line(raw: Seq<char>, w: int, in_code: bool) -> (bool, Seq<LineV>) {
    let t = trim_start_spec(raw);
    if is_fence_spec(t) {
        (!in_code, seq![])
    } else if in_code {
        (true, code_lines(raw, w))
    } else if t.len() == 0 {
        (false, seq![seq![(Seq::<char>::empty(), Style::plain())]])
    } else if is_hr_spec(t) {
        (false, seq![seq![(repeat('\u{2500}', w), dim_style())]])
    } else if heading_spec(t) is Some {
        (false, flow_lines(inline_spec(heading_spec(t).unwrap(), 0, heading_style()), w, seq![]))
    } else if blockquote_spec(t) is Some {
        (
            false,
            flow_lines(
                styled(quote_bar(), dim_style()) + inline_spec(
                    blockquote_spec(t).unwrap(),
                    0,
                    quote_style(),
                ),
                w,
                styled(quote_bar(), dim_style()),
            ),
        )
    } else if list_item_spec(t) is Some {
        let (marker, text) = list_item_spec(t).unwrap();
        (
            false,
            flow_lines(
                styled(marker, marker_style()) + inline_spec(text, 0, Style::plain()),
                w,
                styled(spaces(marker.len() as int), dim_style()),
            ),
        )
    } else {
        (false, flow_lines(inline_spec(t, 0, Style::plain()), w, seq![]))
    }
}

/// The display lines of `c[i..]`, taken line by line at each `\n`, with
/// `in_code` telling whether a code fence is open at `i`.
pub open spec fn render_from(c: Seq<char>, i: int, w: int, in_code: bool) -> Seq<LineV>
    decreases c.len() - i + 1,
{
    if i < 0 || i > c.len() {
        seq![]
    } else {
        let f = find_char_spec(c, i, '\n');
        proof {
            lemma_find_char_range(c, i, '\n');
        }
        if f is Some {
            let p = f.unwrap();
            let r = render_line(c.subrange(i, p), w, in_code);
            r.1 + render_from(c, p + 1, w, r.0)
        } else {
            render_line(c.subrange(i, c.len() as int), w, in_code).1
        }
    }
}

/// The display lines of `content` at `width` columns (at least one).
pub open spec fn render_spec(content: Seq<char>, width: int) -> Seq<LineV> {
    render_from(content, 0, if width < 1 { 1 } else { width }, false)
}

/// Cells of `text` in `style`.
fn styled_cells(text: &[char], style: Style) -> (r: Vec<Cell>)
    ensures
        r@ == styled(text@, style),
{
    let mut r: Vec<Cell> = Vec::new();
    push_styled(&mut r, text, 0, text.len(), style);
    assert(text@.subrange(0, text@.len() as int) =~= text@);
    assert(Seq::<Cell>::empty() + styled(text@, style) =~= styled(text@, style));
    r
}

/// Append `b` to `a`.
fn append_cells(a: &mut Vec<Cell>, b: &[Cell])
    ensures
        final(a)@ == old(a)@ + b@,
{
    extend_cells(a, b, 0, b.len());
    assert(b@.subrange(0, b@.len() as int) =~= b@);
}

proof fn lemma_lines_view_append_one(ls: Seq<Line>, l: Line, v: LineV)
    requires
        line_view(l) == v,
    ensures
        lines_view(ls.push(l)) == lines_view(ls) + seq![v],
{
    assert(lines_view(ls.push(l)) =~= lines_view(ls) + seq![v]);
}

/// Render one source line onto `out`; returns whether a code fence is open
/// afterwards.
fn render_one(out: &mut Vec<Line>, raw: &[char], width: usize, in_code: bool) -> (ic: bool)
    requires
        width >= 1,
    ensures
        ic == render_line(raw@, width as int, in_code).0,
        lines_view(final(out)@) == lines_view(old(out)@) + render_line(
            raw@,
            width as int,
            in_code,
        ).1,
{
    let trimmed = trim_start(raw);
    let ghost before = out@;
    if is_fence(&trimmed) {
        assert(lines_view(out@) =~= lines_view(old(out)@) + Seq::<LineV>::empty());
        return !in_code;
    }
    if in_code {
        push_code_line(out, raw, width);
        return true;
    }
    if trimmed.len() == 0 {
        out.push(Line::blank());
        proof {
            assert(out@ == before.push(out@.last()));
            lemma_lines_view_append_one(before, out@.last(), seq![(Seq::<char>::empty(), Style::plain())]);
        }
        return false;
    }
    let dim = Style::new().fg(Color::DarkGray);
    if is_hr(&trimmed) {
        let rule = repeat_char('\u{2500}', width);
        out.push(Line::from_span(Span::styled(&rule, dim)));
        proof {
            assert(out@ == before.push(out@.last()));
            lemma_lines_view_append_one(before, out@.last(), seq![(repeat('\u{2500}', width as int), dim_style())]);
        }
        return false;
    }
    if let Some(text) = heading(&trimmed) {
        let style = Style::new().fg(Color::Cyan).add_modifier(
            Modifier::bold().union(Modifier::underlined()),
        );
        let cells = parse_inline(&text, style);
        let empty: Vec<Cell> = Vec::new();
        flow(out, &cells, width, &empty);
        assert(empty@ =~= Seq::<Cell>::empty());
        return false;
    }
    if let Some(text) = blockquote(&trimmed) {
        let base = Style::new().fg(Color::Gray).add_modifier(Modifier::italic());
        let mut bar: Vec<char> = Vec::new();
        bar.push('\u{2502}');
        bar.push(' ');
        assert(bar@ =~= quote_bar());
        let mut tokens = styled_cells(&bar, dim);
        let inline = parse_inline(&text, base);
        append_cells(&mut tokens, &inline);
        let prefix = styled_cells(&bar, dim);
        flow(out, &tokens, width, &prefix);
        return false;
    }
    if let Some((marker, text)) = list_item(&trimmed) {
        let indent = repeat_char(' ', marker.len());
        assert(indent@ =~= spaces(marker@.len() as int));
        let mut tokens = styled_cells(&marker, Style::new().fg(Color::Yellow));
        let inline = parse_inline(&text, Style::new());
        append_cells(&mut tokens, &inline);
        let prefix = styled_cells(&indent, dim);
        flow(out, &tokens, width, &prefix);
        return false;
    }
    let cells = parse_inline(&trimmed, Style::new());
    let empty: Vec<Cell> = Vec::new();
    assert(empty@ =~= Seq::<Cell>::empty());
    flow(out, &cells, width, &empty);
    false
}

/// Render Markdown `content` into styled lines already wrapped to `width`.
pub fn render(content: &str, width: usize) -> (lines: Vec<Line>)
    ensures
        lines_view(lines@) == render_spec(content@, width as int),
{
    let width = if width < 1 {
        1
    } else {
        width
    };
    let c = chars_of(content);
    let mut out: Vec<Line> = Vec::new();
    let mut in_code = false;
    let mut i: usize = 0;
    assert(lines_view(out@) =~= Seq::<LineV>::empty());
    loop
        invariant_except_break
            i <= c.len(),
            width >= 1,
            c@ == content@,
            lines_view(out@) + render_from(c@, i as int, width as int, in_code) == render_from(
                c@,
                0,
                width as int,
                false,
            ),
        ensures
            lines_view(out@) == render_from(c@, 0, width as int, false),
            c@ == content@,
        decreases c.len() - i,
    {
        let next = find_char(&c, i, '\n');
        proof {
            lemma_find_char_range(c@, i as int, '\n');
        }
        let ghost pre = lines_view(out@);
        match next {
            Some(p) => {
                let raw = slice_chars(&c, i, p);
                let ghost ic0 = in_code;
                in_code = render_one(&mut out, &raw, width, in_code);
                assert(lines_view(out@) + render_from(c@, p + 1, width as int, in_code) =~= pre
                    + render_from(c@, i as int, width as int, ic0));
                i = p + 1;
            },
            None => {
                let raw = slice_chars(&c, i, c.len());
                let ghost ic0 = in_code;
                in_code = render_one(&mut out, &raw, width, in_code);
                assert(lines_view(out@) =~= pre + render_from(c@, i as int, width as int, ic0));
                break;
            },
        }
    }
    out
}

// --- laws -------------------------------------------------------------------------

/// A segment is a non-empty range of `c`, and a word piece is at most `cw` wide.
pub open spec fn seg_ok(c: Seq<Cell>, seg: (int, int), cw: int) -> bool {
    &&& 0 <= seg.0 < seg.1 <= c.len()
    &&& !is_space_cell(c[seg.0]) ==> seg.1 - seg.0 <= cw
}

pub proof fn lemma_chunk_ranges_ok(c: Seq<Cell>, i: int, j: int, cw: int)
    requires
        0 <= i < j <= c.len(),
        cw >= 1,
        forall|k: int| i <= k < j ==> !is_space_cell(#[trigger] c[k]),
    ensures
        forall|q: int|
            0 <= q < chunk_ranges(i, j, cw).len() ==> seg_ok(c, #[trigger] chunk_ranges(i, j, cw)[q], cw),
    decreases j - i,
{
    if j - i > cw {
        lemma_chunk_ranges_ok(c, i + cw, j, cw);
        let r = chunk_ranges(i, j, cw);
        assert forall|q: int| 0 <= q < r.len() implies seg_ok(c, #[trigger] r[q], cw) by {
            if q > 0 {
                assert(r[q] == chunk_ranges(i + cw, j, cw)[q - 1]);
            }
        }
    }
}

pub proof fn lemma_segments_ok(c: Seq<Cell>, i: int, cw: int)
    requires
        cw >= 1,
    ensures
        forall|q: int|
            0 <= q < segments(c, i, cw).len() ==> seg_ok(c, #[trigger] segments(c, i, cw)[q], cw),
    decreases c.len() - i,
{
    if 0 <= i < c.len() {
        let j = run_end(c, i);
        lemma_run_end(c, i);
        lemma_segments_ok(c, j, cw);
        let head = if is_space_cell(c[i]) {
            seq![(i, j)]
        } else {
            chunk_ranges(i, j, cw)
        };
        if !is_space_cell(c[i]) {
            lemma_chunk_ranges_ok(c, i, j, cw);
        }
        let r = segments(c, i, cw);
        assert(r == head + segments(c, j, cw));
        assert forall|q: int| 0 <= q < r.len() implies seg_ok(c, #[trigger] r[q], cw) by {
            if q >= head.len() {
                assert(r[q] == segments(c, j, cw)[q - head.len()]);
            } else {
                assert(r[q] == head[q]);
            }
        }
    }
}

/// Every line of `lines` and the open `line` fit in `width`.
pub open spec fn state_fits(st: (Seq<Seq<Cell>>, Seq<Cell>), width: int) -> bool {
    &&& forall|q: int| 0 <= q < st.0.len() ==> (#[trigger] st.0[q]).len() <= width
    &&& st.1.len() <= width
}

pub proof fn lemma_layout_fits(
    c: Seq<Cell>,
    segs: Seq<(int, int)>,
    k: int,
    width: int,
    prefix: Seq<Cell>,
    st: (Seq<Seq<Cell>>, Seq<Cell>),
)
    requires
        prefix.len() < width,
        forall|q: int|
            0 <= q < segs.len() ==> seg_ok(c, #[trigger] segs[q], chunk_width(width, prefix.len() as int)),
        state_fits(st, width),
    ensures
        state_fits(layout(c, segs, k, width, prefix, st), width),
    decreases segs.len() - k,
{
    if 0 <= k < segs.len() {
        let next = layout_step(c, width, prefix, st, segs[k]);
        assert(seg_ok(c, segs[k], chunk_width(width, prefix.len() as int)));
        assert forall|q: int| 0 <= q < next.0.len() implies (#[trigger] next.0[q]).len() <= width by {
            if q < st.0.len() {
                assert(next.0[q] == st.0[q]);
            }
        }
        lemma_layout_fits(c, segs, k + 1, width, prefix, next);
    }
}

/// Word wrapping never makes a line wider than `width`, as long as the
/// continuation prefix is narrower than `width`.
pub proof fn law_flow_fits_width(c: Seq<Cell>, width: int, prefix: Seq<Cell>)
    requires
        prefix.len() < width,
    ensures
        forall|q: int|
            0 <= q < flow_spec(c, width, prefix).len() ==> (#[trigger] flow_spec(
                c,
                width,
                prefix,
            )[q]).len() <= width,
{
    let cw = chunk_width(width, prefix.len() as int);
    lemma_segments_ok(c, 0, cw);
    let init: (Seq<Seq<Cell>>, Seq<Cell>) = (seq![], seq![]);
    lemma_layout_fits(c, segments(c, 0, cw), 0, width, prefix, init);
    let st = layout(c, segments(c, 0, cw), 0, width, prefix, init);
    let r = flow_spec(c, width, prefix);
    assert forall|q: int| 0 <= q < r.len() implies (#[trigger] r[q]).len() <= width by {
        if q < st.0.len() {
            assert(r[q] == st.0[q]);
        }
    }
}

/// Every finished line is non-empty and does not start with a space, nor
/// does the line being filled.
pub open spec fn lines_start_plain(st: (Seq<Seq<Cell>>, Seq<Cell>)) -> bool {
    &&& forall|q: int| 0 <= q < st.0.len() ==> (#[trigger] st.0[q]).len() > 0 && !is_space_cell(st.0[q][0])
    &&& st.1.len() > 0 ==> !is_space_cell(st.1[0])
}

proof fn lemma_layout_starts_plain(
    c: Seq<Cell>,
    segs: Seq<(int, int)>,
    k: int,
    width: int,
    prefix: Seq<Cell>,
    st: (Seq<Seq<Cell>>, Seq<Cell>),
)
    requires
        prefix.len() == 0 || !is_space_cell(prefix[0]),
        forall|q: int| 0 <= q < segs.len() ==> seg_ok(c, #[trigger] segs[q], chunk_width(width, prefix.len() as int)),
        lines_start_plain(st),
    ensures
        lines_start_plain(layout(c, segs, k, width, prefix, st)),
    decreases segs.len() - k,
{
    if 0 <= k < segs.len() {
        let seg = segs[k];
        assert(seg_ok(c, seg, chunk_width(width, prefix.len() as int)));
        let s = c.subrange(seg.0, seg.1);
        assert(s[0] == c[seg.0]);
        let next = layout_step(c, width, prefix, st, seg);
        assert forall|q: int| 0 <= q < next.0.len() implies (#[trigger] next.0[q]).len() > 0 && !is_space_cell(
            next.0[q][0],
        ) by {
            if q < st.0.len() {
                assert(next.0[q] == st.0[q]);
            }
        }
        if next.1.len() > 0 {
            if st.1.len() > 0 && next.1 == st.1 + s {
                assert(next.1[0] == st.1[0]);
            } else if st.1.len() == 0 && next.1 == st.1 + s {
                assert(next.1[0] == s[0]);
            } else if prefix.len() > 0 && next.1 == prefix + s {
                assert(next.1[0] == prefix[0]);
            } else if next.1 == prefix + s {
                assert(next.1[0] == s[0]);
            }
        }
        lemma_layout_starts_plain(c, segs, k + 1, width, prefix, next);
    }
}

/// Word wrapping makes no empty line and starts no line with a space, unless
/// the continuation prefix itself starts with one.
pub proof fn law_flow_lines_start_plain(c: Seq<Cell>, width: int, prefix: Seq<Cell>)
    requires
        prefix.len() == 0 || !is_space_cell(prefix[0]),
    ensures
        forall|q: int|
            0 <= q < flow_spec(c, width, prefix).len() ==> (#[trigger] flow_spec(c, width, prefix)[q]).len() > 0
                && !is_space_cell(flow_spec(c, width, prefix)[q][0]),
{
    let cw = chunk_width(width, prefix.len() as int);
    lemma_segments_ok(c, 0, cw);
    let init: (Seq<Seq<Cell>>, Seq<Cell>) = (seq![], seq![]);
    lemma_layout_starts_plain(c, segments(c, 0, cw), 0, width, prefix, init);
    let st = layout(c, segments(c, 0, cw), 0, width, prefix, init);
    let r = flow_spec(c, width, prefix);
    assert forall|q: int| 0 <= q < r.len() implies (#[trigger] r[q]).len() > 0 && !is_space_cell(r[q][0]) by {
        if q < st.0.len() {
            assert(r[q] == st.0[q]);
        }
    }
}

/// The test that keeps every cell but a space.
pub open spec fn not_space_cell() -> spec_fn(Cell) -> bool {
    |x: Cell| !is_space_cell(x)
}

/// The cells of `x` that are not spaces.
pub open spec fn non_space_cells(x: Seq<Cell>) -> Seq<Cell> {
    x.filter(not_space_cell())
}

/// The cells of segments `segs[k..]`, one after the other.
pub open spec fn seg_cells(c: Seq<Cell>, segs: Seq<(int, int)>, k: int) -> Seq<Cell>
    decreases segs.len() - k,
{
    if k < 0 || k >= segs.len() {
        seq![]
    } else {
        c.subrange(segs[k].0, segs[k].1) + seg_cells(c, segs, k + 1)
    }
}

/// The finished lines and the line being filled, one after the other.
pub open spec fn layout_cells(st: (Seq<Seq<Cell>>, Seq<Cell>)) -> Seq<Cell> {
    st.0.flatten() + st.1
}

proof fn lemma_non_space_add(a: Seq<Cell>, b: Seq<Cell>)
    ensures
        non_space_cells(a + b) == non_space_cells(a) + non_space_cells(b),
{
    Seq::filter_distributes_over_add(a, b, not_space_cell());
}

proof fn lemma_non_space_of_spaces(x: Seq<Cell>)
    requires
        forall|k: int| 0 <= k < x.len() ==> is_space_cell(#[trigger] x[k]),
    ensures
        non_space_cells(x) == Seq::<Cell>::empty(),
    decreases x.len(),
{
    reveal(Seq::filter);
    if x.len() > 0 {
        lemma_non_space_of_spaces(x.drop_last());
    }
}

proof fn lemma_seg_cells_concat(c: Seq<Cell>, a: Seq<(int, int)>, b: Seq<(int, int)>, k: int)
    requires
        0 <= k <= a.len(),
    ensures
        seg_cells(c, a + b, k) == seg_cells(c, a, k) + seg_cells(c, b, 0),
    decreases a.len() - k,
{
    if k < a.len() {
        lemma_seg_cells_concat(c, a, b, k + 1);
        assert((a + b)[k] == a[k]);
        assert(seg_cells(c, a + b, k) =~= c.subrange(a[k].0, a[k].1) + seg_cells(c, a, k + 1) + seg_cells(c, b, 0));
    } else {
        assert(seg_cells(c, a, k) =~= Seq::<Cell>::empty());
        if b.len() > 0 {
            assert(seg_cells(c, a + b, k) == seg_cells(c, b, 0)) by {
                lemma_seg_cells_shift(c, a, b, 0);
            }
        } else {
            assert(a + b =~= a);
        }
    }
}

proof fn lemma_seg_cells_shift(c: Seq<Cell>, a: Seq<(int, int)>, b: Seq<(int, int)>, m: int)
    requires
        0 <= m <= b.len(),
    ensures
        seg_cells(c, a + b, a.len() + m) == seg_cells(c, b, m),
    decreases b.len() - m,
{
    if m < b.len() {
        lemma_seg_cells_shift(c, a, b, m + 1);
        assert((a + b)[a.len() + m] == b[m]);
    }
}

proof fn lemma_chunk_cells(c: Seq<Cell>, i: int, j: int, cw: int)
    requires
        0 <= i <= j <= c.len(),
    ensures
        seg_cells(c, chunk_ranges(i, j, cw), 0) == c.subrange(i, j),
        forall|q: int| 0 <= q < chunk_ranges(i, j, cw).len() ==> i <= (#[trigger] chunk_ranges(i, j, cw)[q]).0 && (i < j
            ==> chunk_ranges(i, j, cw)[q].0 < j),
    decreases j - i,
{
    if cw < 1 || j - i <= cw {
        assert(seg_cells(c, seq![(i, j)], 1) =~= Seq::<Cell>::empty());
        assert(c.subrange(i, j) + Seq::<Cell>::empty() =~= c.subrange(i, j));
    } else {
        lemma_chunk_cells(c, i + cw, j, cw);
        let head: Seq<(int, int)> = seq![(i, i + cw)];
        let rest = chunk_ranges(i + cw, j, cw);
        lemma_seg_cells_concat(c, head, rest, 0);
        assert(seg_cells(c, head, 1) =~= Seq::<Cell>::empty());
        assert(c.subrange(i, j) =~= c.subrange(i, i + cw) + c.subrange(i + cw, j));
        let r = chunk_ranges(i, j, cw);
        assert forall|q: int| 0 <= q < r.len() implies i <= (#[trigger] r[q]).0 && (i < j ==> r[q].0 < j) by {
            if q > 0 {
                assert(r[q] == rest[q - 1]);
            }
        }
    }
}

/// The segments tile the text: their cells, one after the other, are
/// `c[i..]`; a segment that starts with a space holds nothing but spaces.
proof fn lemma_segments_tile(c: Seq<Cell>, i: int, cw: int)
    requires
        0 <= i <= c.len(),
    ensures
        seg_cells(c, segments(c, i, cw), 0) == c.subrange(i, c.len() as int),
        forall|q: int| 0 <= q < segments(c, i, cw).len() && is_space_cell(c[(#[trigger] segments(c, i, cw)[q]).0])
            ==> forall|k: int| segments(c, i, cw)[q].0 <= k < segments(c, i, cw)[q].1 ==> is_space_cell(#[trigger] c[k]),
    decreases c.len() - i,
{
    if i < c.len() {
        let j = run_end(c, i);
        lemma_run_end(c, i);
        lemma_segments_tile(c, j, cw);
        let head = if is_space_cell(c[i]) {
            seq![(i, j)]
        } else {
            chunk_ranges(i, j, cw)
        };
        let rest = segments(c, j, cw);
        let r = segments(c, i, cw);
        assert(r == head + rest);
        lemma_seg_cells_concat(c, head, rest, 0);
        if is_space_cell(c[i]) {
            assert(seg_cells(c, head, 1) =~= Seq::<Cell>::empty());
            assert(seg_cells(c, head, 0) =~= c.subrange(i, j));
        } else {
            lemma_chunk_cells(c, i, j, cw);
        }
        assert(c.subrange(i, c.len() as int) =~= c.subrange(i, j) + c.subrange(j, c.len() as int));
        assert forall|q: int| 0 <= q < r.len() && is_space_cell(c[(#[trigger] r[q]).0]) implies forall|k: int|
            r[q].0 <= k < r[q].1 ==> is_space_cell(#[trigger] c[k]) by {
            if q >= head.len() {
                assert(r[q] == rest[q - head.len()]);
            } else {
                assert(r[q] == head[q]);
                if !is_space_cell(c[i]) {
                    assert(i <= head[q].0 < j);
                    assert(!is_space_cell(c[head[q].0]));
                }
            }
        }
    } else {
        assert(c.subrange(i, c.len() as int) =~= Seq::<Cell>::empty());
    }
}

/// Continuation lines start with the prefix: once a line is finished, the
/// line being filled begins with `prefix`.
pub open spec fn continues_with(st: (Seq<Seq<Cell>>, Seq<Cell>), prefix: Seq<Cell>) -> bool {
    st.0.len() > 0 ==> prefix.len() <= st.1.len() && st.1.subrange(0, prefix.len() as int) == prefix
}

proof fn lemma_layout_keeps(
    c: Seq<Cell>,
    segs: Seq<(int, int)>,
    k: int,
    width: int,
    prefix: Seq<Cell>,
    st: (Seq<Seq<Cell>>, Seq<Cell>),
)
    requires
        0 <= k <= segs.len(),
        forall|m: int| 0 <= m < prefix.len() ==> is_space_cell(#[trigger] prefix[m]),
        forall|q: int| 0 <= q < segs.len() ==> seg_ok(c, #[trigger] segs[q], chunk_width(width, prefix.len() as int)),
        forall|q: int| 0 <= q < segs.len() && is_space_cell(c[(#[trigger] segs[q]).0]) ==> forall|m: int|
            segs[q].0 <= m < segs[q].1 ==> is_space_cell(#[trigger] c[m]),
        continues_with(st, prefix),
    ensures
        non_space_cells(layout_cells(layout(c, segs, k, width, prefix, st))) == non_space_cells(layout_cells(st))
            + non_space_cells(seg_cells(c, segs, k)),
        continues_with(layout(c, segs, k, width, prefix, st), prefix),
    decreases segs.len() - k,
{
    if k < segs.len() {
        let seg = segs[k];
        assert(seg_ok(c, seg, chunk_width(width, prefix.len() as int)));
        let s = c.subrange(seg.0, seg.1);
        let lines = st.0;
        let line = st.1;
        let next = layout_step(c, width, prefix, st, seg);
        lines.lemma_flatten_push(line);
        lemma_non_space_of_spaces(prefix);
        let t = layout_cells(st);
        if is_space_cell(c[seg.0]) {
            assert forall|m: int| 0 <= m < s.len() implies is_space_cell(#[trigger] s[m]) by {
                assert(s[m] == c[seg.0 + m]);
            }
            lemma_non_space_of_spaces(s);
            lemma_non_space_add(t, s);
            lemma_non_space_add(t, prefix);
        } else {
            lemma_non_space_add(t, s);
            lemma_non_space_add(lines.flatten() + line + prefix, s);
            lemma_non_space_add(t, prefix);
        }
        assert(non_space_cells(layout_cells(next)) == non_space_cells(t) + non_space_cells(s)) by {
            if is_space_cell(c[seg.0]) {
                if line.len() == 0 {
                } else if line.len() + s.len() <= width {
                    assert(layout_cells(next) =~= t + s);
                } else {
                    assert(layout_cells(next) =~= t + prefix);
                }
            } else {
                if line.len() != 0 && line.len() + s.len() > width {
                    assert(layout_cells(next) =~= t + prefix + s);
                    assert(non_space_cells(t) + Seq::<Cell>::empty() =~= non_space_cells(t));
                } else {
                    assert(layout_cells(next) =~= t + s);
                }
            }
            assert(non_space_cells(t) + Seq::<Cell>::empty() =~= non_space_cells(t));
        }
        assert(continues_with(next, prefix)) by {
            if next.0.len() > 0 {
                if next.1 == line + s && next.0 == lines {
                    assert((line + s).subrange(0, prefix.len() as int) =~= line.subrange(0, prefix.len() as int));
                } else if next.1 == prefix + s {
                    assert((prefix + s).subrange(0, prefix.len() as int) =~= prefix);
                } else if next.1 == prefix {
                    assert(prefix.subrange(0, prefix.len() as int) =~= prefix);
                }
            }
        }
        lemma_layout_keeps(c, segs, k + 1, width, prefix, next);
        assert(seg_cells(c, segs, k) == s + seg_cells(c, segs, k + 1));
        lemma_non_space_add(s, seg_cells(c, segs, k + 1));
        assert(non_space_cells(t) + non_space_cells(s) + non_space_cells(seg_cells(c, segs, k + 1)) =~= non_space_cells(t)
            + non_space_cells(seg_cells(c, segs, k)));
    } else {
        assert(seg_cells(c, segs, k) =~= Seq::<Cell>::empty());
        reveal(Seq::filter);
        assert(non_space_cells(layout_cells(st)) + non_space_cells(Seq::<Cell>::empty()) =~= non_space_cells(
            layout_cells(st),
        ));
    }
}

/// With a continuation prefix of spaces only, word wrapping keeps every
/// non-space cell, in order, and adds none; the one exception is a text laid
/// out on a single line no longer than the prefix, which is dropped as a
/// leftover prefix.
pub proof fn law_flow_keeps_non_space(c: Seq<Cell>, width: int, prefix: Seq<Cell>)
    requires
        forall|m: int| 0 <= m < prefix.len() ==> is_space_cell(#[trigger] prefix[m]),
    ensures
        non_space_cells(flow_spec(c, width, prefix).flatten()) == non_space_cells(c) || (flow_spec(
            c,
            width,
            prefix,
        ).len() == 0 && non_space_cells(c).len() <= prefix.len()),
{
    let cw = chunk_width(width, prefix.len() as int);
    let segs = segments(c, 0, cw);
    lemma_segments_ok(c, 0, cw);
    lemma_segments_tile(c, 0, cw);
    let init: (Seq<Seq<Cell>>, Seq<Cell>) = (seq![], seq![]);
    lemma_layout_keeps(c, segs, 0, width, prefix, init);
    let st = layout(c, segs, 0, width, prefix, init);
    assert(c.subrange(0, c.len() as int) =~= c);
    reveal(Seq::filter);
    assert(layout_cells(init) =~= Seq::<Cell>::empty());
    assert(non_space_cells(Seq::<Cell>::empty()) + non_space_cells(c) =~= non_space_cells(c));
    st.0.lemma_flatten_push(st.1);
    if st.1.len() <= prefix.len() {
        if st.0.len() > 0 {
            assert(st.1 =~= prefix);
            lemma_non_space_of_spaces(prefix);
            lemma_non_space_add(st.0.flatten(), st.1);
            assert(non_space_cells(st.0.flatten()) + Seq::<Cell>::empty() =~= non_space_cells(st.0.flatten()));
        } else {
            assert(layout_cells(st) =~= st.1);
            st.1.lemma_filter_len(not_space_cell());
        }
    }
}

/// Merging cells into spans keeps the text: the spans spell the cells' chars.
pub proof fn law_merge_runs_keeps_text(cells: Seq<Cell>)
    ensures
        spans_text(merge_runs(cells)) == cell_chars(cells),
    decreases cells.len(),
{
    if cells.len() > 0 {
        let r = merge_runs(cells.drop_last());
        law_merge_runs_keeps_text(cells.drop_last());
        assert(cell_chars(cells) =~= cell_chars(cells.drop_last()).push(cells.last().0));
        if r.len() > 0 && r.last().1 == cells.last().1 {
            let m = r.drop_last().push((r.last().0.push(cells.last().0), cells.last().1));
            assert(m.drop_last() == r.drop_last());
            assert(r.drop_last().push(r.last()) == r);
            assert(spans_text(r) == spans_text(r.drop_last()) + r.last().0);
            assert(spans_text(m) =~= spans_text(r) + seq![cells.last().0]);
        } else {
            let m = r.push((seq![cells.last().0], cells.last().1));
            assert(m.drop_last() == r);
            assert(spans_text(m) =~= spans_text(r) + seq![cells.last().0]);
        }
    }
}

/// Text without any markup character (`` ` ``, `*`, `_`) renders as itself in
/// the base style.
pub proof fn law_plain_text_is_literal(c: Seq<char>, i: int, base: Style)
    requires
        0 <= i <= c.len(),
        forall|k: int| 0 <= k < c.len() ==> #[trigger] c[k] != '`' && c[k] != '*' && c[k] != '_',
    ensures
        inline_spec(c, i, base) == styled(c.skip(i), base),
    decreases c.len() - i,
{
    if i < c.len() {
        law_plain_text_is_literal(c, i + 1, base);
        assert(c.skip(i) =~= seq![c[i]] + c.skip(i + 1));
        assert(styled(c.skip(i), base) =~= seq![(c[i], base)] + styled(c.skip(i + 1), base));
    } else {
        assert(c.skip(i) =~= Seq::<char>::empty());
        assert(styled(c.skip(i), base) =~= Seq::<Cell>::empty());
    }
}

// --- rendered width ------------------------------------------------------------

/// Every line of `ls` spells at most `w` chars.
pub open spec fn lines_fit(ls: Seq<LineV>, w: int) -> bool {
    forall|q: int| 0 <= q < ls.len() ==> (#[trigger] spans_text(ls[q])).len() <= w
}

/// A source line's list marker, if the line is a list item, is narrower than
/// `w`, so its continuation indent leaves room for text.
pub open spec fn marker_fits(raw: Seq<char>, w: int) -> bool {
    match list_item_spec(trim_start_spec(raw)) {
        Some((m, _)) => m.len() < w,
        None => true,
    }
}

/// Every source line of `c[i..]` has a marker narrower than `w`.
pub open spec fn markers_fit_from(c: Seq<char>, i: int, w: int) -> bool
    decreases c.len() - i + 1,
{
    if i < 0 || i > c.len() {
        true
    } else {
        let f = find_char_spec(c, i, '\n');
        proof {
            lemma_find_char_range(c, i, '\n');
        }
        if f is Some {
            let p = f.unwrap();
            marker_fits(c.subrange(i, p), w) && markers_fit_from(c, p + 1, w)
        } else {
            marker_fits(c.subrange(i, c.len() as int), w)
        }
    }
}

proof fn lemma_fit_concat(a: Seq<LineV>, b: Seq<LineV>, w: int)
    requires
        lines_fit(a, w),
        lines_fit(b, w),
    ensures
        lines_fit(a + b, w),
{
    assert forall|q: int| 0 <= q < (a + b).len() implies (#[trigger] spans_text((a + b)[q])).len() <= w by {
        if q < a.len() {
            assert((a + b)[q] == a[q]);
        } else {
            assert((a + b)[q] == b[q - a.len()]);
        }
    }
}

proof fn lemma_single_span_text(t: Seq<char>, st: Style)
    ensures
        spans_text(seq![(t, st)]) == t,
{
    let s = seq![(t, st)];
    assert(s.drop_last() =~= Seq::<(Seq<char>, Style)>::empty());
    assert(spans_text(s.drop_last()) == Seq::<char>::empty());
    assert(s.last().0 == t);
    assert(Seq::<char>::empty() + t =~= t);
}

proof fn lemma_flow_lines_fit(c: Seq<Cell>, w: int, prefix: Seq<Cell>)
    requires
        prefix.len() < w,
    ensures
        lines_fit(flow_lines(c, w, prefix), w),
{
    law_flow_fits_width(c, w, prefix);
    let f = flow_spec(c, w, prefix);
    assert forall|q: int| 0 <= q < flow_lines(c, w, prefix).len() implies (#[trigger] spans_text(
        flow_lines(c, w, prefix)[q],
    )).len() <= w by {
        law_merge_runs_keeps_text(f[q]);
        assert(flow_lines(c, w, prefix)[q] == merge_runs(f[q]));
        assert(f[q].len() <= w);
    }
}

proof fn lemma_code_chunks_width(raw: Seq<char>, w: int)
    requires
        w >= 1,
    ensures
        forall|q: int| 0 <= q < code_chunks(raw, w).len() ==> (#[trigger] code_chunks(raw, w)[q]).len() == w,
    decreases raw.len(),
{
    if raw.len() > w {
        lemma_code_chunks_width(raw.skip(w), w);
        let r = code_chunks(raw, w);
        assert forall|q: int| 0 <= q < r.len() implies (#[trigger] r[q]).len() == w by {
            if q > 0 {
                assert(r[q] == code_chunks(raw.skip(w), w)[q - 1]);
            }
        }
    }
}

proof fn lemma_code_lines_fit(raw: Seq<char>, w: int)
    requires
        w >= 1,
    ensures
        lines_fit(code_lines(raw, w), w),
{
    lemma_code_chunks_width(raw, w);
    assert forall|q: int| 0 <= q < code_lines(raw, w).len() implies (#[trigger] spans_text(
        code_lines(raw, w)[q],
    )).len() <= w by {
        lemma_single_span_text(code_chunks(raw, w)[q], code_style());
    }
}

proof fn lemma_render_line_fits(raw: Seq<char>, w: int, in_code: bool)
    requires
        w >= 3,
        marker_fits(raw, w),
    ensures
        lines_fit(render_line(raw, w, in_code).1, w),
{
    let t = trim_start_spec(raw);
    let r = render_line(raw, w, in_code).1;
    if is_fence_spec(t) {
    } else if in_code {
        lemma_code_lines_fit(raw, w);
    } else if t.len() == 0 {
        lemma_single_span_text(Seq::<char>::empty(), Style::plain());
    } else if is_hr_spec(t) {
        lemma_single_span_text(repeat('\u{2500}', w), dim_style());
    } else if heading_spec(t) is Some {
        lemma_flow_lines_fit(inline_spec(heading_spec(t).unwrap(), 0, heading_style()), w, seq![]);
    } else if blockquote_spec(t) is Some {
        lemma_flow_lines_fit(
            styled(quote_bar(), dim_style()) + inline_spec(blockquote_spec(t).unwrap(), 0, quote_style()),
            w,
            styled(quote_bar(), dim_style()),
        );
    } else if list_item_spec(t) is Some {
        let (marker, text) = list_item_spec(t).unwrap();
        lemma_flow_lines_fit(
            styled(marker, marker_style()) + inline_spec(text, 0, Style::plain()),
            w,
            styled(spaces(marker.len() as int), dim_style()),
        );
    } else {
        lemma_flow_lines_fit(inline_spec(t, 0, Style::plain()), w, seq![]);
    }
}

proof fn lemma_render_from_fits(c: Seq<char>, i: int, w: int, in_code: bool)
    requires
        w >= 3,
        markers_fit_from(c, i, w),
    ensures
        lines_fit(render_from(c, i, w, in_code), w),
    decreases c.len() - i + 1,
{
    if 0 <= i <= c.len() {
        lemma_find_char_range(c, i, '\n');
        let f = find_char_spec(c, i, '\n');
        if f is Some {
            let p = f.unwrap();
            let r = render_line(c.subrange(i, p), w, in_code);
            lemma_render_line_fits(c.subrange(i, p), w, in_code);
            lemma_render_from_fits(c, p + 1, w, r.0);
            lemma_fit_concat(r.1, render_from(c, p + 1, w, r.0), w);
        } else {
            lemma_render_line_fits(c.subrange(i, c.len() as int), w, in_code);
        }
    }
}

/// Rendered Markdown never spills past the pane: at a width of three or more
/// columns, every display line spells at most `width` chars, provided each
/// numbered-list marker (digits, `.`, space) is narrower than the width.
pub proof fn law_rendered_lines_fit(content: Seq<char>, width: int)
    requires
        width >= 3,
        markers_fit_from(content, 0, width),
    ensures
        lines_fit(render_spec(content, width), width),
{
    lemma_render_from_fits(content, 0, width, false);
}

} // verus!
