//! Layout for the chat screen: wrapping typed text, placing the input cursor,
//! choosing which history lines are visible, and building each message's
//! display lines.
use vstd::prelude::*;

use crate::agent::types::{ChatMessage, Role};
use crate::tui::app::{Status, StatusView};
use crate::text::{chars_of, slice_chars, string_of, strs};
use crate::tui::markdown::{find_char, find_char_spec, lemma_find_char_range, render, render_spec, LineV};
use crate::tui::style::{line_view, lines_view, Color, Line, Modifier, Span, Style};

verus! {

// --- word wrapping of plain text ------------------------------------------------

/// A word longer than `w` cut into full pieces of `w` chars, and what is left
/// (between one and `w` chars).
pub open spec fn split_long(word: Seq<char>, w: int) -> (Seq<Seq<char>>, Seq<char>)
    decreases word.len(),
{
    if w < 1 || word.len() <= w {
        (seq![], word)
    } else {
        let r = split_long(word.skip(w), w);
        (seq![word.take(w)] + r.0, r.1)
    }
}

/// Place one word given the finished lines and the line being filled: a word
/// wider than `w` is hard-split; otherwise it joins the current line after a
/// space, or starts the next line when it does not fit.
pub open spec fn wrap_word(st: (Seq<Seq<char>>, Seq<char>), word: Seq<char>, w: int) -> (
    Seq<Seq<char>>,
    Seq<char>,
) {
    let lines = st.0;
    let cur = st.1;
    if word.len() > w {
        let lines1 = if cur.len() > 0 {
            lines.push(cur)
        } else {
            lines
        };
        let sl = split_long(word, w);
        (lines1 + sl.0, sl.1)
    } else {
        let extra = if cur.len() == 0 {
            word.len()
        } else {
            word.len() + 1
        };
        if cur.len() + extra > w {
            (lines.push(cur), word)
        } else if cur.len() > 0 {
            (lines, cur.push(' ') + word)
        } else {
            (lines, cur + word)
        }
    }
}

/// The wrapped lines of `t[i..]`, its words being what lies between single
/// spaces, given the wrapping state reached at `i`.
pub open spec fn wrap_from(t: Seq<char>, i: int, w: int, st: (Seq<Seq<char>>, Seq<char>)) -> Seq<
    Seq<char>,
>
    decreases t.len() - i + 1,
{
    if i < 0 || i > t.len() {
        st.0.push(st.1)
    } else {
        let f = find_char_spec(t, i, ' ');
        proof {
            lemma_find_char_range(t, i, ' ');
        }
        if f is Some {
            let p = f.unwrap();
            wrap_from(t, p + 1, w, wrap_word(st, t.subrange(i, p), w))
        } else {
            let last = wrap_word(st, t.subrange(i, t.len() as int), w);
            last.0.push(last.1)
        }
    }
}

/// `text` word-wrapped to `width` columns; width 0 leaves it whole.
pub open spec fn wrap_spec(text: Seq<char>, width: int) -> Seq<Seq<char>> {
    if width == 0 {
        seq![text]
    } else {
        wrap_from(text, 0, width, (seq![], seq![]))
    }
}

proof fn lemma_strs_push(v: Seq<String>, s: String)
    ensures
        strs(v.push(s)) == strs(v).push(s@),
{
    assert(strs(v.push(s)) =~= strs(v).push(s@));
}

/// Place one word into the wrapping state held by `lines` and `cur`.
fn wrap_word_exec(lines: &mut Vec<String>, cur: &mut Vec<char>, word: &[char], width: usize)
    requires
        width >= 1,
    ensures
        (strs(final(lines)@), final(cur)@) == wrap_word(
            (strs(old(lines)@), old(cur)@),
            word@,
            width as int,
        ),
{
    let ghost st = (strs(lines@), cur@);
    if word.len() > width {
        if cur.len() > 0 {
            let s = string_of(cur);
            proof {
                lemma_strs_push(lines@, s);
            }
            lines.push(s);
        }
        let ghost lines1 = strs(lines@);
        let mut start: usize = 0;
        assert(word@.skip(0) == word@);
        while word.len() - start > width
            invariant
                start <= word.len(),
                width >= 1,
                word.len() > width,
                strs(lines@) + split_long(word@.skip(start as int), width as int).0 == lines1
                    + split_long(word@, width as int).0,
                split_long(word@.skip(start as int), width as int).1 == split_long(
                    word@,
                    width as int,
                ).1,
            decreases word.len() - start,
        {
            let piece = slice_chars(word, start, start + width);
            let s = string_of(&piece);
            let ghost pre = strs(lines@);
            proof {
                lemma_strs_push(lines@, s);
                let ws = word@.skip(start as int);
                assert(ws.take(width as int) =~= piece@);
                assert(ws.skip(width as int) =~= word@.skip(start + width));
            }
            lines.push(s);
            start += width;
        }
        let rest = slice_chars(word, start, word.len());
        assert(rest@ =~= word@.skip(start as int));
        assert(strs(lines@) + Seq::<Seq<char>>::empty() =~= strs(lines@));
        *cur = rest;
        return;
    }
    let fits = if cur.len() == 0 {
        true
    } else {
        cur.len() < width && word.len() <= width - cur.len() - 1
    };
    if !fits {
        let s = string_of(cur);
        proof {
            lemma_strs_push(lines@, s);
        }
        lines.push(s);
        *cur = slice_chars(word, 0, word.len());
        assert(cur@ =~= word@);
    } else {
        if cur.len() > 0 {
            cur.push(' ');
        }
        let mut k: usize = 0;
        let ghost c0 = cur@;
        while k < word.len()
            invariant
                k <= word.len(),
                cur@ == c0 + word@.take(k as int),
            decreases word.len() - k,
        {
            cur.push(word[k]);
            assert(word@.take(k + 1) == word@.take(k as int).push(word@[k as int]));
            k += 1;
        }
        assert(word@.take(word.len() as int) == word@);
    }
}

/// Word-wrap `text` to `width` columns, hard-splitting words longer than the width.
pub fn wrap(text: &str, width: usize) -> (lines: Vec<String>)
    ensures
        strs(lines@) == wrap_spec(text@, width as int),
{
    if width == 0 {
        let mut v: Vec<String> = Vec::new();
        v.push(String::from_str(text));
        assert(strs(v@) =~= seq![text@]);
        return v;
    }
    let t = chars_of(text);
    let mut lines: Vec<String> = Vec::new();
    let mut cur: Vec<char> = Vec::new();
    let mut i: usize = 0;
    assert(strs(lines@) =~= Seq::<Seq<char>>::empty());
    loop
        invariant_except_break
            i <= t.len(),
            width >= 1,
            t@ == text@,
            wrap_from(t@, i as int, width as int, (strs(lines@), cur@)) == wrap_spec(
                text@,
                width as int,
            ),
        ensures
            strs(lines@) == wrap_spec(text@, width as int),
        decreases t.len() - i,
    {
        let next = find_char(&t, i, ' ');
        proof {
            lemma_find_char_range(t@, i as int, ' ');
        }
        match next {
            Some(p) => {
                let word = slice_chars(&t, i, p);
                wrap_word_exec(&mut lines, &mut cur, &word, width);
                i = p + 1;
            },
            None => {
                let word = slice_chars(&t, i, t.len());
                wrap_word_exec(&mut lines, &mut cur, &word, width);
                let s = string_of(&cur);
                proof {
                    lemma_strs_push(lines@, s);
                }
                lines.push(s);
                break;
            },
        }
    }
    lines
}

proof fn lemma_split_long_fits(word: Seq<char>, w: int)
    requires
        w >= 1,
    ensures
        forall|q: int| 0 <= q < split_long(word, w).0.len() ==> (#[trigger] split_long(word, w).0[q]).len()
            <= w,
        split_long(word, w).1.len() <= w,
    decreases word.len(),
{
    if word.len() > w {
        lemma_split_long_fits(word.skip(w), w);
        let r = split_long(word, w);
        let inner = split_long(word.skip(w), w);
        assert forall|q: int| 0 <= q < r.0.len() implies (#[trigger] r.0[q]).len() <= w by {
            if q > 0 {
                assert(r.0[q] == inner.0[q - 1]);
            }
        }
    }
}

/// Every finished line and the line being filled fit in `w`.
pub open spec fn wrap_fits(st: (Seq<Seq<char>>, Seq<char>), w: int) -> bool {
    &&& forall|q: int| 0 <= q < st.0.len() ==> (#[trigger] st.0[q]).len() <= w
    &&& st.1.len() <= w
}

proof fn lemma_wrap_word_fits(st: (Seq<Seq<char>>, Seq<char>), word: Seq<char>, w: int)
    requires
        w >= 1,
        wrap_fits(st, w),
    ensures
        wrap_fits(wrap_word(st, word, w), w),
{
    lemma_split_long_fits(word, w);
    let r = wrap_word(st, word, w);
    if word.len() > w {
        let lines1 = if st.1.len() > 0 {
            st.0.push(st.1)
        } else {
            st.0
        };
        let sl = split_long(word, w);
        assert forall|q: int| 0 <= q < r.0.len() implies (#[trigger] r.0[q]).len() <= w by {
            if q < lines1.len() {
                assert(r.0[q] == lines1[q]);
                if q < st.0.len() {
                    assert(lines1[q] == st.0[q]);
                }
            } else {
                assert(r.0[q] == sl.0[q - lines1.len()]);
            }
        }
    } else {
        assert forall|q: int| 0 <= q < r.0.len() implies (#[trigger] r.0[q]).len() <= w by {
            if q < st.0.len() {
                assert(r.0[q] == st.0[q]);
            }
        }
    }
}

proof fn lemma_wrap_from_fits(t: Seq<char>, i: int, w: int, st: (Seq<Seq<char>>, Seq<char>))
    requires
        w >= 1,
        wrap_fits(st, w),
    ensures
        forall|q: int| 0 <= q < wrap_from(t, i, w, st).len() ==> (#[trigger] wrap_from(t, i, w, st)[q]).len()
            <= w,
    decreases t.len() - i + 1,
{
    if i < 0 || i > t.len() {
        let r = st.0.push(st.1);
        assert forall|q: int| 0 <= q < r.len() implies (#[trigger] r[q]).len() <= w by {
            if q < st.0.len() {
                assert(r[q] == st.0[q]);
            }
        }
    } else {
        lemma_find_char_range(t, i, ' ');
        let f = find_char_spec(t, i, ' ');
        if f is Some {
            let p = f.unwrap();
            lemma_wrap_word_fits(st, t.subrange(i, p), w);
            lemma_wrap_from_fits(t, p + 1, w, wrap_word(st, t.subrange(i, p), w));
            assert(wrap_from(t, i, w, st) == wrap_from(t, p + 1, w, wrap_word(st, t.subrange(i, p), w)));
        } else {
            let last = wrap_word(st, t.subrange(i, t.len() as int), w);
            lemma_wrap_word_fits(st, t.subrange(i, t.len() as int), w);
            let r = last.0.push(last.1);
            assert forall|q: int| 0 <= q < r.len() implies (#[trigger] r[q]).len() <= w by {
                if q < last.0.len() {
                    assert(r[q] == last.0[q]);
                }
            }
        }
    }
}

/// Wrapping typed text never yields a line wider than the width.
pub proof fn law_wrap_fits_width(text: Seq<char>, width: int)
    requires
        width >= 1,
    ensures
        forall|q: int| 0 <= q < wrap_spec(text, width).len() ==> (#[trigger] wrap_spec(
            text,
            width,
        )[q]).len() <= width,
{
    lemma_wrap_from_fits(text, 0, width, (seq![], seq![]));
}

/// `s` with its spaces left out.
pub open spec fn drop_spaces(s: Seq<char>) -> Seq<char> {
    s.filter(not_space())
}

/// The test that keeps every char but a space.
pub open spec fn not_space() -> spec_fn(char) -> bool {
    |c: char| c != ' '
}

/// The finished lines and the line being filled, one after the other.
pub open spec fn wrap_text(st: (Seq<Seq<char>>, Seq<char>)) -> Seq<char> {
    st.0.flatten() + st.1
}

proof fn lemma_drop_spaces_add(a: Seq<char>, b: Seq<char>)
    ensures
        drop_spaces(a + b) == drop_spaces(a) + drop_spaces(b),
{
    Seq::filter_distributes_over_add(a, b, not_space());
}

proof fn lemma_drop_spaces_space()
    ensures
        drop_spaces(seq![' ']) == Seq::<char>::empty(),
{
    Seq::<char>::empty().lemma_filter_push(' ', not_space());
    assert(Seq::<char>::empty().push(' ') =~= seq![' ']);
    reveal(Seq::filter);
    assert(Seq::<char>::empty().filter(not_space()) =~= Seq::<char>::empty());
}

proof fn lemma_split_long_keeps(word: Seq<char>, w: int)
    ensures
        split_long(word, w).0.flatten() + split_long(word, w).1 == word,
    decreases word.len(),
{
    if !(w < 1 || word.len() <= w) {
        let r = split_long(word.skip(w), w);
        lemma_split_long_keeps(word.skip(w), w);
        let head = seq![word.take(w)];
        assert((head + r.0).drop_first() =~= r.0);
        assert((head + r.0).flatten() == word.take(w) + r.0.flatten());
        assert(word =~= word.take(w) + word.skip(w));
    } else {
        assert(seq![] + word =~= word);
    }
}

/// Placing a word appends it to the text laid out so far, after a space when it
/// joins a line that already holds a word.
proof fn lemma_wrap_word_keeps(st: (Seq<Seq<char>>, Seq<char>), word: Seq<char>, w: int)
    ensures
        wrap_text(wrap_word(st, word, w)) == wrap_text(st) + word || wrap_text(wrap_word(st, word, w))
            == wrap_text(st) + seq![' '] + word,
{
    let lines = st.0;
    let cur = st.1;
    lines.lemma_flatten_push(cur);
    if word.len() > w {
        let lines1 = if cur.len() > 0 {
            lines.push(cur)
        } else {
            lines
        };
        let sl = split_long(word, w);
        lemma_split_long_keeps(word, w);
        vstd::seq_lib::lemma_flatten_concat(lines1, sl.0);
        assert(lines1.flatten() =~= lines.flatten() + cur);
        assert(wrap_text(wrap_word(st, word, w)) =~= wrap_text(st) + word);
    } else {
        let extra = if cur.len() == 0 {
            word.len()
        } else {
            word.len() + 1
        };
        if cur.len() + extra > w {
            assert(wrap_text(wrap_word(st, word, w)) =~= wrap_text(st) + word);
        } else if cur.len() > 0 {
            assert(wrap_text(wrap_word(st, word, w)) =~= wrap_text(st) + seq![' '] + word);
        } else {
            assert(wrap_text(wrap_word(st, word, w)) =~= wrap_text(st) + word);
        }
    }
}

proof fn lemma_wrap_word_keeps_chars(st: (Seq<Seq<char>>, Seq<char>), word: Seq<char>, w: int)
    ensures
        drop_spaces(wrap_text(wrap_word(st, word, w))) == drop_spaces(wrap_text(st)) + drop_spaces(word),
{
    lemma_wrap_word_keeps(st, word, w);
    let a = wrap_text(st);
    lemma_drop_spaces_add(a, word);
    lemma_drop_spaces_add(a, seq![' ']);
    lemma_drop_spaces_add(a + seq![' '], word);
    lemma_drop_spaces_space();
    assert(drop_spaces(a) + Seq::<char>::empty() =~= drop_spaces(a));
}

proof fn lemma_wrap_from_keeps(t: Seq<char>, i: int, w: int, st: (Seq<Seq<char>>, Seq<char>))
    ensures
        wrap_from(t, i, w, st).len() >= 1,
        0 <= i <= t.len() ==> drop_spaces(wrap_from(t, i, w, st).flatten()) == drop_spaces(wrap_text(st))
            + drop_spaces(t.subrange(i, t.len() as int)),
    decreases t.len() - i + 1,
{
    if !(i < 0 || i > t.len()) {
        lemma_find_char_range(t, i, ' ');
        let f = find_char_spec(t, i, ' ');
        if f is Some {
            let p = f.unwrap();
            let st1 = wrap_word(st, t.subrange(i, p), w);
            lemma_wrap_from_keeps(t, p + 1, w, st1);
            lemma_wrap_word_keeps_chars(st, t.subrange(i, p), w);
            assert(wrap_from(t, i, w, st) == wrap_from(t, p + 1, w, st1));
            let a = t.subrange(i, p);
            let b = t.subrange(p + 1, t.len() as int);
            assert(t.subrange(i, t.len() as int) =~= a + seq![' '] + b);
            lemma_drop_spaces_add(a + seq![' '], b);
            lemma_drop_spaces_add(a, seq![' ']);
            lemma_drop_spaces_space();
            assert(drop_spaces(a) + Seq::<char>::empty() =~= drop_spaces(a));
        } else {
            let last = wrap_word(st, t.subrange(i, t.len() as int), w);
            lemma_wrap_word_keeps_chars(st, t.subrange(i, t.len() as int), w);
            last.0.lemma_flatten_push(last.1);
        }
    }
}

/// Wrapping always yields at least one line, and drops nothing but spaces:
/// the lines, read one after the other with their spaces left out, hold the
/// text with its spaces left out.
pub proof fn law_wrap_keeps_text(text: Seq<char>, width: int)
    requires
        width >= 0,
    ensures
        wrap_spec(text, width).len() >= 1,
        drop_spaces(wrap_spec(text, width).flatten()) == drop_spaces(text),
{
    if width == 0 {
        seq![text].lemma_flatten_singleton();
    } else {
        lemma_wrap_from_keeps(text, 0, width, (seq![], seq![]));
        assert(text.subrange(0, text.len() as int) =~= text);
        assert(Seq::<Seq<char>>::empty().flatten() + Seq::<char>::empty() =~= Seq::<char>::empty());
        reveal(Seq::filter);
        assert(drop_spaces(Seq::<char>::empty()) + drop_spaces(text) =~= drop_spaces(text));
    }
}

/// Lines joined with one space between them.
pub open spec fn join_lines(lines: Seq<Seq<char>>) -> Seq<char>
    decreases lines.len(),
{
    if lines.len() == 0 {
        seq![]
    } else if lines.len() == 1 {
        lines[0]
    } else {
        join_lines(lines.drop_last()) + seq![' '] + lines.last()
    }
}

/// No space in `t[a..b]`.
pub open spec fn space_free(t: Seq<char>, a: int, b: int) -> bool {
    forall|k: int| a <= k < b ==> t[k] != ' '
}

/// Every word of `t`, a word being what lies between single spaces, is
/// non-empty and at most `w` chars long.
pub open spec fn words_fit(t: Seq<char>, w: int) -> bool {
    forall|a: int, b: int|
        0 <= a <= b <= t.len() && (a == 0 || t[a - 1] == ' ') && (b == t.len() || t[b] == ' ')
            && #[trigger] space_free(t, a, b) ==> 0 < b - a <= w
}

proof fn lemma_find_char_first(c: Seq<char>, start: int, t: char)
    requires
        0 <= start,
    ensures
        find_char_spec(c, start, t) matches Some(e) ==> forall|k: int| start <= k < e ==> c[k] != t,
    decreases c.len() - start,
{
    if !(start >= c.len()) && c[start] != t {
        lemma_find_char_first(c, start + 1, t);
    }
}

/// The line being filled and the finished lines, joined with spaces.
pub open spec fn wrap_joined(st: (Seq<Seq<char>>, Seq<char>)) -> Seq<char> {
    join_lines(st.0.push(st.1))
}

proof fn lemma_wrap_word_joins(st: (Seq<Seq<char>>, Seq<char>), word: Seq<char>, w: int)
    requires
        st.1.len() > 0,
        0 < word.len() <= w,
    ensures
        wrap_word(st, word, w).1.len() > 0,
        wrap_joined(wrap_word(st, word, w)) == wrap_joined(st) + seq![' '] + word,
{
    let lines = st.0;
    let cur = st.1;
    let r = wrap_word(st, word, w);
    if cur.len() + word.len() + 1 > w {
        assert(r.0.push(r.1).drop_last() =~= lines.push(cur));
    } else {
        assert(r.1 == cur.push(' ') + word);
        if lines.len() == 0 {
            assert(r.0.push(r.1) =~= seq![r.1]);
            assert(st.0.push(st.1) =~= seq![cur]);
            assert(r.1 =~= cur + seq![' '] + word);
        } else {
            assert(r.0.push(r.1).drop_last() =~= lines);
            assert(lines.push(cur).drop_last() =~= lines);
            assert(join_lines(r.0.push(r.1)) =~= join_lines(lines) + seq![' '] + cur + seq![' '] + word);
        }
    }
}

proof fn lemma_wrap_from_joins(t: Seq<char>, i: int, w: int, st: (Seq<Seq<char>>, Seq<char>))
    requires
        words_fit(t, w),
        0 <= i <= t.len(),
        i == 0 || t[i - 1] == ' ',
        st.1.len() > 0,
    ensures
        join_lines(wrap_from(t, i, w, st)) == wrap_joined(st) + seq![' '] + t.subrange(i, t.len() as int),
    decreases t.len() - i + 1,
{
    lemma_find_char_range(t, i, ' ');
    lemma_find_char_first(t, i, ' ');
    let f = find_char_spec(t, i, ' ');
    if f is Some {
        let p = f.unwrap();
        let word = t.subrange(i, p);
        assert(space_free(t, i, p));
        lemma_wrap_word_joins(st, word, w);
        let st1 = wrap_word(st, word, w);
        lemma_wrap_from_joins(t, p + 1, w, st1);
        assert(t.subrange(i, t.len() as int) =~= word + seq![' '] + t.subrange(p + 1, t.len() as int));
        assert(wrap_joined(st) + seq![' '] + word + seq![' '] + t.subrange(p + 1, t.len() as int) =~= wrap_joined(st)
            + seq![' '] + t.subrange(i, t.len() as int));
    } else {
        let word = t.subrange(i, t.len() as int);
        assert(space_free(t, i, t.len() as int));
        lemma_wrap_word_joins(st, word, w);
    }
}

/// When every word of the text is non-empty and fits the width, wrapping only
/// breaks lines at spaces: the lines joined with single spaces give the text
/// back.
pub proof fn law_wrap_joins_back(text: Seq<char>, width: int)
    requires
        width >= 1,
        words_fit(text, width),
    ensures
        join_lines(wrap_spec(text, width)) == text,
{
    let init: (Seq<Seq<char>>, Seq<char>) = (seq![], seq![]);
    lemma_find_char_range(text, 0, ' ');
    lemma_find_char_first(text, 0, ' ');
    let f = find_char_spec(text, 0, ' ');
    if f is Some {
        let p = f.unwrap();
        let word = text.subrange(0, p);
        assert(space_free(text, 0, p));
        let st1 = wrap_word(init, word, width);
        assert(st1.0 =~= Seq::<Seq<char>>::empty());
        assert(st1.1 =~= word);
        assert(st1.0.push(st1.1) =~= seq![word]);
        lemma_wrap_from_joins(text, p + 1, width, st1);
        assert(text =~= word + seq![' '] + text.subrange(p + 1, text.len() as int));
    } else {
        assert(space_free(text, 0, text.len() as int));
        let word = text.subrange(0, text.len() as int);
        assert(word =~= text);
        assert(0 < word.len() <= width);
        let last = wrap_word(init, word, width);
        assert(last.1 =~= text);
        assert(last.0.push(last.1) =~= seq![text]);
    }
}

// --- the input cursor ------------------------------------------------------------

/// Column and row of the cursor after the first `n` chars of `s` in a box `w`
/// columns wide: a newline or a full row moves to the start of the next row.
pub open spec fn cursor_after(s: Seq<char>, n: int, w: int) -> (int, int)
    decreases n,
{
    if n <= 0 {
        (0, 0)
    } else {
        let p = cursor_after(s, n - 1, w);
        if s[n - 1] == '\n' || p.0 + 1 >= w {
            (0, p.1 + 1)
        } else {
            (p.0 + 1, p.1)
        }
    }
}

/// Number of chars the cursor has passed.
pub open spec fn cursor_chars(len: int, cursor: int) -> int {
    if cursor < len {
        cursor
    } else {
        len
    }
}

/// Map a char-index cursor onto (column, row) within a wrapped input box.
pub fn cursor_position(input: &str, cursor: usize, width: usize) -> (pos: (usize, usize))
    ensures
        (pos.0 as int, pos.1 as int) == cursor_after(
            input@,
            cursor_chars(input@.len() as int, cursor as int),
            width as int,
        ),
{
    let s = chars_of(input);
    let n = if cursor < s.len() {
        cursor
    } else {
        s.len()
    };
    let mut col: usize = 0;
    let mut row: usize = 0;
    let mut i: usize = 0;
    while i < n
        invariant
            i <= n <= s.len(),
            s@ == input@,
            col <= i,
            row <= i,
            (col as int, row as int) == cursor_after(s@, i as int, width as int),
        decreases n - i,
    {
        if s[i] == '\n' || col + 1 >= width {
            row += 1;
            col = 0;
        } else {
            col += 1;
        }
        i += 1;
    }
    (col, row)
}

/// The cursor's column always stays inside the box, and it moves down at most
/// one row per char.
pub proof fn law_cursor_inside_box(s: Seq<char>, n: int, w: int)
    requires
        w >= 1,
        0 <= n <= s.len(),
    ensures
        0 <= cursor_after(s, n, w).0 < w,
        0 <= cursor_after(s, n, w).1 <= n,
    decreases n,
{
    if n > 0 {
        law_cursor_inside_box(s, n - 1, w);
    }
}

// --- the visible part of the history -------------------------------------------

/// First history line to show: the newest page when following, else the
/// requested offset, never past the newest page.
pub open spec fn history_scroll_spec(total: int, height: int, follow: bool, scroll: int) -> int {
    let max_scroll = if total > height {
        total - height
    } else {
        0
    };
    if follow {
        max_scroll
    } else if scroll < max_scroll {
        scroll
    } else {
        max_scroll
    }
}

/// How many history lines to skip so that `height` lines fit the view.
pub fn history_scroll(total: usize, height: usize, follow: bool, scroll: usize) -> (skip: usize)
    ensures
        skip == history_scroll_spec(total as int, height as int, follow, scroll as int),
{
    let max_scroll = if total > height {
        total - height
    } else {
        0
    };
    if follow {
        max_scroll
    } else if scroll < max_scroll {
        scroll
    } else {
        max_scroll
    }
}

/// Following the history shows its last page: the skipped lines plus one
/// page reach the end, and nothing past the end is ever skipped to.
pub proof fn law_follow_shows_newest(total: int, height: int, scroll: int)
    requires
        0 <= total,
        0 <= height,
    ensures
        history_scroll_spec(total, height, true, scroll) + height >= total,
        forall|f: bool| #[trigger] history_scroll_spec(total, height, f, scroll) <= if total > height {
            total - height
        } else {
            0
        },
{
}

// --- one message's lines ---------------------------------------------------------

/// The header label and colour of a role.
pub open spec fn role_label(role: Role) -> (Seq<char>, Color) {
    match role {
        Role::User => ("You"@, Color::Green),
        Role::Assistant => ("Assistant"@, Color::Cyan),
        Role::System => ("System"@, Color::DarkGray),
    }
}

/// The lines of typed text `c[i..]`: each source line wrapped, a blank source
/// line kept blank.
pub open spec fn user_lines_from(c: Seq<char>, i: int, w: int) -> Seq<LineV>
    decreases c.len() - i + 1,
{
    if i < 0 || i > c.len() {
        seq![]
    } else {
        let f = find_char_spec(c, i, '\n');
        proof {
            lemma_find_char_range(c, i, '\n');
        }
        let end = if f is Some {
            f.unwrap()
        } else {
            c.len() as int
        };
        let raw = c.subrange(i, end);
        let here = if raw.len() == 0 {
            seq![seq![(Seq::<char>::empty(), Style::plain())]]
        } else {
            wrap_spec(raw, w).map_values(|l: Seq<char>| seq![(l, Style::plain())])
        };
        if f is Some {
            here + user_lines_from(c, end + 1, w)
        } else {
            here
        }
    }
}

/// The display lines of one message: a bold header naming the author, the
/// body (typed text wrapped as is, replies rendered as Markdown), then a
/// blank line.
pub open spec fn message_lines(role: Role, content: Seq<char>, w: int) -> Seq<LineV> {
    let (label, color) = role_label(role);
    let header = seq![(label, Style::plain().with_fg(color).with_modifier(Modifier { bold: true, italic: false, underlined: false }))];
    let body = match role {
        Role::User => user_lines_from(content, 0, w),
        _ => render_spec(content, w),
    };
    seq![header] + body + seq![seq![(Seq::<char>::empty(), Style::plain())]]
}

proof fn lemma_push_line(ls: Seq<Line>, l: Line)
    ensures
        lines_view(ls.push(l)) == lines_view(ls).push(line_view(l)),
{
    assert(lines_view(ls.push(l)) =~= lines_view(ls).push(line_view(l)));
}

/// Append the lines of typed text `content` to `lines`.
fn push_user_lines(lines: &mut Vec<Line>, content: &str, width: usize)
    ensures
        lines_view(final(lines)@) == lines_view(old(lines)@) + user_lines_from(
            content@,
            0,
            width as int,
        ),
{
    let c = chars_of(content);
    let mut i: usize = 0;
    loop
        invariant_except_break
            i <= c.len(),
            c@ == content@,
            lines_view(lines@) + user_lines_from(c@, i as int, width as int) == lines_view(
                old(lines)@,
            ) + user_lines_from(c@, 0, width as int),
        ensures
            lines_view(lines@) == lines_view(old(lines)@) + user_lines_from(
                c@,
                0,
                width as int,
            ),
            c@ == content@,
        decreases c.len() - i,
    {
        let next = find_char(&c, i, '\n');
        proof {
            lemma_find_char_range(c@, i as int, '\n');
        }
        let end = match next {
            Some(p) => p,
            None => c.len(),
        };
        let raw = slice_chars(&c, i, end);
        let ghost pre = lines_view(lines@);
        let ghost here = if raw@.len() == 0 {
            seq![seq![(Seq::<char>::empty(), Style::plain())]]
        } else {
            wrap_spec(raw@, width as int).map_values(|l: Seq<char>| seq![(l, Style::plain())])
        };
        if raw.len() == 0 {
            let ghost before = lines@;
            lines.push(Line::blank());
            proof {
                assert(lines@ == before.push(lines@.last()));
                lemma_push_line(before, lines@.last());
                assert(lines_view(lines@) =~= pre + here);
            }
        } else {
            let text = string_of(&raw);
            let wrapped = wrap(text.as_str(), width);
            let mut k: usize = 0;
            while k < wrapped.len()
                invariant
                    k <= wrapped.len(),
                    strs(wrapped@) == wrap_spec(raw@, width as int),
                    lines_view(lines@) == pre + strs(wrapped@).take(k as int).map_values(
                        |l: Seq<char>| seq![(l, Style::plain())],
                    ),
                decreases wrapped.len() - k,
            {
                let piece = chars_of(wrapped[k].as_str());
                let ghost before = lines@;
                lines.push(Line::from_span(Span::styled(&piece, Style::new())));
                proof {
                    assert(lines@ == before.push(lines@.last()));
                    lemma_push_line(before, lines@.last());
                    assert(strs(wrapped@)[k as int] == wrapped@[k as int]@);
                    assert(strs(wrapped@).take(k + 1).map_values(
                        |l: Seq<char>| seq![(l, Style::plain())],
                    ) =~= strs(wrapped@).take(k as int).map_values(
                        |l: Seq<char>| seq![(l, Style::plain())],
                    ).push(seq![(piece@, Style::plain())]));
                }
                k += 1;
            }
            assert(strs(wrapped@).take(wrapped.len() as int) =~= strs(wrapped@));
        }
        assert(lines_view(lines@) == pre + here);
        match next {
            Some(p) => {
                assert(lines_view(lines@) + user_lines_from(c@, p + 1, width as int) =~= pre
                    + user_lines_from(c@, i as int, width as int));
                i = p + 1;
            },
            None => {
                assert(lines_view(lines@) =~= pre + user_lines_from(c@, i as int, width as int));
                break;
            },
        }
    }
}

/// Append a styled header line plus wrapped body lines for one message.
pub fn push_message(lines: &mut Vec<Line>, role: Role, content: &str, width: usize)
    ensures
        lines_view(final(lines)@) == lines_view(old(lines)@) + message_lines(
            role,
            content@,
            width as int,
        ),
{
    let (label, color) = match role {
        Role::User => ("You", Color::Green),
        Role::Assistant => ("Assistant", Color::Cyan),
        Role::System => ("System", Color::DarkGray),
    };
    let label_chars = chars_of(label);
    let ghost before = lines@;
    lines.push(
        Line::from_span(
            Span::styled(&label_chars, Style::new().fg(color).add_modifier(Modifier::bold())),
        ),
    );
    proof {
        assert(lines@ == before.push(lines@.last()));
        lemma_push_line(before, lines@.last());
    }
    let ghost after_header = lines_view(lines@);
    match role {
        Role::User => {
            push_user_lines(lines, content, width);
        },
        Role::Assistant | Role::System => {
            let rendered = render(content, width);
            let mut k: usize = 0;
            let ghost base = lines_view(lines@);
            let ghost rv = lines_view(rendered@);
            while k < rendered.len()
                invariant
                    k <= rendered.len(),
                    rv == lines_view(rendered@),
                    lines_view(lines@) == base + rv.take(k as int),
                decreases rendered.len() - k,
            {
                let ghost b = lines@;
                lines.push(rendered[k].clone_line());
                proof {
                    assert(lines@ == b.push(lines@.last()));
                    lemma_push_line(b, lines@.last());
                    assert(rv.take(k + 1) =~= rv.take(k as int).push(rv[k as int]));
                }
                k += 1;
            }
            assert(rv.take(rendered.len() as int) =~= rv);
        },
    }
    let ghost b = lines@;
    lines.push(Line::blank());
    proof {
        assert(lines@ == b.push(lines@.last()));
        lemma_push_line(b, lines@.last());
        assert(lines_view(lines@) =~= lines_view(old(lines)@) + message_lines(
            role,
            content@,
            width as int,
        ));
    }
}

// --- the conversation pane -------------------------------------------------------

/// The lines of the stored messages, oldest first.
pub open spec fn conversation_lines(msgs: Seq<ChatMessage>, w: int) -> Seq<LineV>
    decreases msgs.len(),
{
    if msgs.len() == 0 {
        seq![]
    } else {
        conversation_lines(msgs.drop_last(), w) + message_lines(msgs.last().role, msgs.last().content@, w)
    }
}

/// What the streaming reply shows: the text so far, or `…` before the first
/// token.
pub open spec fn shown_partial(partial: Seq<char>) -> Seq<char> {
    if partial.len() == 0 {
        "\u{2026}"@
    } else {
        partial
    }
}

/// Every line of the conversation pane: the stored messages, then the reply
/// in progress, if one is streaming.
pub open spec fn history_spec(msgs: Seq<ChatMessage>, status: StatusView, w: int) -> Seq<LineV> {
    conversation_lines(msgs, w) + match status {
        StatusView::Streaming { partial, .. } => message_lines(Role::Assistant, shown_partial(partial), w),
        StatusView::Idle => seq![],
    }
}

/// The lines of the conversation pane at `width` columns.
pub fn history_lines(msgs: &[ChatMessage], status: &Status, width: usize) -> (lines: Vec<Line>)
    ensures
        lines_view(lines@) == history_spec(msgs@, status@, width as int),
{
    let mut lines: Vec<Line> = Vec::new();
    let mut i: usize = 0;
    while i < msgs.len()
        invariant
            i <= msgs.len(),
            lines_view(lines@) == conversation_lines(msgs@.take(i as int), width as int),
        decreases msgs.len() - i,
    {
        assert(msgs@.take(i + 1).drop_last() == msgs@.take(i as int));
        assert(msgs@.take(i + 1).last() == msgs@[i as int]);
        push_message(&mut lines, msgs[i].role, msgs[i].content.as_str(), width);
        i += 1;
    }
    assert(msgs@.take(msgs.len() as int) == msgs@);
    match status {
        Status::Streaming { partial, .. } => {
            if partial.as_str().unicode_len() == 0 {
                push_message(&mut lines, Role::Assistant, "\u{2026}", width);
                proof {
                    reveal_strlit("\u{2026}");
                }
            } else {
                push_message(&mut lines, Role::Assistant, partial.as_str(), width);
            }
        },
        Status::Idle => {
            assert(lines_view(lines@) + Seq::<LineV>::empty() =~= lines_view(lines@));
        },
    }
    lines
}

/// The lines of `lines` that fit a pane of `height` rows after skipping the
/// first `skip`.
pub fn visible(lines: Vec<Line>, skip: usize, height: usize) -> (shown: Vec<Line>)
    ensures
        lines_view(shown@) == lines_view(lines@).skip(skip as int).take(
            if skip >= lines@.len() {
                0
            } else if height < lines@.len() - skip {
                height as int
            } else {
                lines@.len() - skip
            },
        ),
{
    let mut shown: Vec<Line> = Vec::new();
    let ghost lv = lines_view(lines@);
    if skip >= lines.len() {
        assert(lines_view(shown@) =~= lv.skip(skip as int).take(0));
        return shown;
    }
    let mut i: usize = skip;
    while i < lines.len() && i - skip < height
        invariant
            skip <= i <= lines@.len(),
            i - skip <= height,
            lv == lines_view(lines@),
            lines_view(shown@) == lv.subrange(skip as int, i as int),
        decreases lines.len() - i,
    {
        let ghost pre = shown@;
        shown.push(lines[i].clone_line());
        proof {
            lemma_push_line(pre, shown@.last());
            assert(shown@ == pre.push(shown@.last()));
            assert(lv.subrange(skip as int, i + 1) =~= lv.subrange(skip as int, i as int).push(lv[i as int]));
        }
        i += 1;
    }
    assert(lines_view(shown@) =~= lv.skip(skip as int).take((i - skip) as int));
    shown
}

// --- the status bar ----------------------------------------------------------------

/// The spinner's frames, one per tick.
pub open spec fn spinner_frames() -> Seq<char> {
    seq!['\u{280b}', '\u{2819}', '\u{2839}', '\u{2838}', '\u{283c}', '\u{2834}', '\u{2826}', '\u{2827}', '\u{2807}', '\u{280f}']
}

fn spinner_frame(i: usize) -> (c: char)
    ensures
        c == spinner_frames()[(i % 10) as int],
{
    let k = i % 10;
    if k == 0 {
        '\u{280b}'
    } else if k == 1 {
        '\u{2819}'
    } else if k == 2 {
        '\u{2839}'
    } else if k == 3 {
        '\u{2838}'
    } else if k == 4 {
        '\u{283c}'
    } else if k == 5 {
        '\u{2834}'
    } else if k == 6 {
        '\u{2826}'
    } else if k == 7 {
        '\u{2827}'
    } else if k == 8 {
        '\u{2807}'
    } else {
        '\u{280f}'
    }
}

/// The help shown in the status bar when nothing else is.
pub open spec fn help_text() -> Seq<char> {
    " Tab switch pane \u{b7} PgUp/PgDn scroll \u{b7} Ctrl+Q quit"@
}

/// The status bar: the last error in red if there is one, else a spinner
/// while a reply streams, else the key help.
pub open spec fn status_spec(error: Option<String>, status: StatusView) -> LineV {
    match error {
        Some(e) => seq![(" error: "@ + e@, Style::plain().with_fg(Color::Red))],
        None => match status {
            StatusView::Streaming { spinner_idx, .. } => seq![
                (seq![' ', spinner_frames()[(spinner_idx % 10) as int]] + " thinking\u{2026}"@, Style::plain().with_fg(Color::Yellow)),
            ],
            StatusView::Idle => seq![(help_text(), Style::plain().with_fg(Color::DarkGray))],
        },
    }
}

/// The one-line status bar under the input box.
pub fn status_line(error: &Option<String>, status: &Status) -> (l: Line)
    ensures
        line_view(l) == status_spec(*error, status@),
{
    match error {
        Some(e) => {
            let text = String::from_str(" error: ").concat(e.as_str());
            let c = chars_of(text.as_str());
            Line::from_span(Span::styled(&c, Style::new().fg(Color::Red)))
        },
        None => match status {
            Status::Streaming { spinner_idx, .. } => {
                let mut c: Vec<char> = Vec::new();
                c.push(' ');
                c.push(spinner_frame(*spinner_idx));
                let tail = chars_of(" thinking\u{2026}");
                let mut k: usize = 0;
                while k < tail.len()
                    invariant
                        k <= tail.len(),
                        c@ == seq![' ', spinner_frames()[(*spinner_idx % 10) as int]] + tail@.take(k as int),
                    decreases tail.len() - k,
                {
                    assert(tail@.take(k + 1) == tail@.take(k as int).push(tail@[k as int]));
                    c.push(tail[k]);
                    k += 1;
                }
                assert(tail@.take(tail.len() as int) == tail@);
                Line::from_span(Span::styled(&c, Style::new().fg(Color::Yellow)))
            },
            Status::Idle => {
                let c = chars_of(" Tab switch pane \u{b7} PgUp/PgDn scroll \u{b7} Ctrl+Q quit");
                Line::from_span(Span::styled(&c, Style::new().fg(Color::DarkGray)))
            },
        },
    }
}

// --- panes -----------------------------------------------------------------------------

/// A pane's border colour: cyan when it has the focus, else dark grey.
pub fn border_color(focused: bool) -> (c: Color)
    ensures
        c == (if focused {
            Color::Cyan
        } else {
            Color::DarkGray
        }),
{
    if focused {
        Color::Cyan
    } else {
        Color::DarkGray
    }
}

/// A pane's title: the title padded by one space on each side, in white.
pub fn pane_title(title: &str) -> (s: Span)
    ensures
        s@ == (seq![' '] + title@ + seq![' '], Style::plain().with_fg(Color::White)),
{
    let text = String::from_str(" ").concat(title).concat(" ");
    proof {
        reveal_strlit(" ");
    }
    let c = chars_of(text.as_str());
    Span::styled(&c, Style::new().fg(Color::White))
}

/// The style of the highlighted session in the sidebar.
pub fn selection_style() -> (s: Style)
    ensures
        s == Style::plain().with_fg(Color::Black).with_bg(Color::Cyan).with_modifier(
            Modifier { bold: true, italic: false, underlined: false },
        ),
{
    Style::new().fg(Color::Black).bg(Color::Cyan).add_modifier(Modifier::bold())
}

/// Where the terminal cursor goes in an input box whose inner area starts at
/// (`x`, `y`) and is `width` by `height`: the cursor's (column, row) in the
/// wrapped input, kept inside the box.
pub fn input_cursor(x: u16, y: u16, width: u16, height: u16, col: usize, row: usize) -> (p: (u16, u16))
    requires
        x + width <= u16::MAX,
        y + height <= u16::MAX,
    ensures
        p.0 == x + (if width == 0 {
            0
        } else if col < width - 1 {
            col as int
        } else {
            width - 1
        }),
        p.1 == y + (if height == 0 {
            0
        } else if row < height - 1 {
            row as int
        } else {
            height - 1
        }),
{
    let wmax: u16 = if width == 0 { 0 } else { width - 1 };
    let hmax: u16 = if height == 0 { 0 } else { height - 1 };
    let dx: u16 = if col < wmax as usize { col as u16 } else { wmax };
    let dy: u16 = if row < hmax as usize { row as u16 } else { hmax };
    (x + dx, y + dy)
}

} // verus!
