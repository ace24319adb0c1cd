//! Laws of the Markdown renderer's list items: which lines are bullet items
//! and how the three bullet chars render.
use vstd::prelude::*;

use crate::text::{is_digit, is_ws, lead_ws, trim_start_spec};
use crate::tui::markdown::{
    all_ws_or, blockquote_spec, lead_digits, dim_style, find_char_spec, flow_lines, heading_spec, inline_spec, is_fence_spec,
    lead_run, lemma_find_char_range, list_item_spec, marker_style, render_line, render_spec, spaces, styled,
};
use crate::tui::style::Style;

verus! {

/// A line starting with `-`, `*` or `+` and a space is a list item: it is
/// shown with the bullet `• ` and the text after the space.
pub proof fn law_bullet_items(b: char, t: Seq<char>)
    requires
        b == '-' || b == '*' || b == '+',
    ensures
        list_item_spec(seq![b, ' '] + t) == Some((seq!['\u{2022}', ' '], t)),
{
    let l = seq![b, ' '] + t;
    assert(l[0] == b && l[1] == ' ');
    assert(l.skip(2) =~= t);
}

/// A char that keeps a line from being a horizontal rule.
pub open spec fn breaks_rule(c: char) -> bool {
    !is_ws(c) && c != '-' && c != '*' && c != '_'
}

proof fn lemma_bullet_line_renders(b: char, t: Seq<char>, w: int)
    requires
        b == '-' || b == '*' || b == '+',
        exists|k: int| 0 <= k < t.len() && #[trigger] breaks_rule(t[k]),
    ensures
        render_line(seq![b, ' '] + t, w, false) == (
            false,
            flow_lines(
                styled(seq!['\u{2022}', ' '], marker_style()) + inline_spec(t, 0, Style::plain()),
                w,
                styled(spaces(2), dim_style()),
            ),
        ),
{
    let l = seq![b, ' '] + t;
    assert(l[0] == b);
    assert(lead_ws(l) == 0);
    assert(trim_start_spec(l) =~= l);
    assert(!is_fence_spec(l));
    let k = choose|k: int| 0 <= k < t.len() && #[trigger] breaks_rule(t[k]);
    assert(l[k + 2] == t[k]);
    assert(!all_ws_or(l, '-') && !all_ws_or(l, '*') && !all_ws_or(l, '_'));
    assert(lead_run(l, '#') == 0);
    assert(heading_spec(l) is None);
    assert(blockquote_spec(l) is None);
    law_bullet_items(b, t);
}

/// `-`, `*` and `+` bullets render alike: a reply line that is a `*` item
/// shows exactly as the same item written with `-` or `+` (a line of bullet
/// chars and spaces alone being a horizontal rule instead).
pub proof fn law_bullets_render_alike(t: Seq<char>, w: int)
    requires
        exists|k: int| 0 <= k < t.len() && #[trigger] breaks_rule(t[k]),
        forall|k: int| 0 <= k < t.len() ==> #[trigger] t[k] != '\n',
    ensures
        render_spec(seq!['*', ' '] + t, w) == render_spec(seq!['-', ' '] + t, w),
        render_spec(seq!['+', ' '] + t, w) == render_spec(seq!['-', ' '] + t, w),
{
    let w1 = if w < 1 { 1 } else { w };
    assert forall|b: char| b == '-' || b == '*' || b == '+' implies render_spec(seq![b, ' '] + t, w) == render_line(
        seq![b, ' '] + t,
        w1,
        false,
    ).1 by {
        let l = seq![b, ' '] + t;
        lemma_find_char_range(l, 0, '\n');
        if find_char_spec(l, 0, '\n') is Some {
            let p = find_char_spec(l, 0, '\n').unwrap();
            if p >= 2 {
                assert(l[p] == t[p - 2]);
            }
        }
        assert(l.subrange(0, l.len() as int) =~= l);
    }
    lemma_bullet_line_renders('*', t, w1);
    lemma_bullet_line_renders('-', t, w1);
    lemma_bullet_line_renders('+', t, w1);
}

proof fn lemma_lead_digits_of(d: Seq<char>, rest: Seq<char>)
    requires
        forall|k: int| 0 <= k < d.len() ==> is_digit(#[trigger] d[k]),
        rest.len() > 0 && !is_digit(rest[0]),
    ensures
        lead_digits(d + rest) == d.len(),
    decreases d.len(),
{
    if d.len() > 0 {
        assert((d + rest).drop_first() =~= d.drop_first() + rest);
        lemma_lead_digits_of(d.drop_first(), rest);
    } else {
        assert(d + rest =~= rest);
    }
}

/// A line starting with digits, `.` and a space is a numbered item: it keeps
/// its number and `. ` as the marker, and the text after the space.
pub proof fn law_numbered_items(d: Seq<char>, t: Seq<char>)
    requires
        d.len() >= 1,
        forall|k: int| 0 <= k < d.len() ==> is_digit(#[trigger] d[k]),
    ensures
        list_item_spec(d + seq!['.', ' '] + t) == Some((d + seq!['.', ' '], t)),
{
    let l = d + seq!['.', ' '] + t;
    assert(l =~= d + (seq!['.', ' '] + t));
    lemma_lead_digits_of(d, seq!['.', ' '] + t);
    assert(is_digit(d[0]));
    assert(l[0] == d[0]);
    let n = d.len() as int;
    assert(l[n] == '.' && l[n + 1] == ' ');
    assert(l.take(n + 2) =~= d + seq!['.', ' ']);
    assert(l.skip(n + 2) =~= t);
}

} // verus!
