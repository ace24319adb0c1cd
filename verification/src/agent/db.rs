//! Chat-session bookkeeping shared by every surface: session titles and the
//! stored form of a message's tool labels.
use vstd::prelude::*;

use crate::text::{
    chars_of, is_ws, json_list, lead_ws, lemma_lead_ws_bound, lemma_trail_ws_bound, slice_chars, string_of, strs,
    trail_ws, trim, trim_end_spec, trim_spec, trim_start_spec,
};

verus! {

/// Title given to a freshly created session until its first user message renames it.
pub const DEFAULT_SESSION_TITLE: &'static str = "New chat";

/// Longest title, in chars, before it is cut and an ellipsis added.
pub const TITLE_MAX_CHARS: usize = 40;

/// The first line of `text`: everything before the first `\n`.
pub open spec fn first_line(text: Seq<char>) -> Seq<char> {
    if exists|i: int| 0 <= i < text.len() && text[i] == '\n' {
        text.take(choose|i: int| 0 <= i < text.len() && text[i] == '\n' && forall|k: int|
            0 <= k < i ==> text[k] != '\n')
    } else {
        text
    }
}

/// The title a session gets from its first user message: the message's first
/// line, trimmed, cut to 40 chars with `…` appended when it was longer, or
/// [`DEFAULT_SESSION_TITLE`] when that line is blank.
pub open spec fn title_spec(text: Seq<char>) -> Seq<char> {
    let line = trim_spec(first_line(text));
    if line.len() == 0 {
        "New chat"@
    } else if line.len() > 40 {
        line.take(40).push('\u{2026}')
    } else {
        line
    }
}

/// Build a short session title from the first line of a user message. Truncates to
/// 40 characters and falls back to [`DEFAULT_SESSION_TITLE`] when the text is empty.
/// Shared by every surface (TUI, HTTP) so a session is titled the same way regardless
/// of where the first message came from.
pub fn title_from(text: &str) -> (title: String)
    ensures
        title@ == title_spec(text@),
{
    let c = chars_of(text);
    let mut end: usize = 0;
    while end < c.len() && c[end] != '\n'
        invariant
            end <= c.len(),
            forall|k: int| 0 <= k < end ==> c@[k] != '\n',
        decreases c.len() - end,
    {
        end += 1;
    }
    proof {
        if end < c.len() {
            let i = end as int;
            assert(0 <= i < c@.len() && c@[i] == '\n' && forall|k: int| 0 <= k < i ==> c@[k] != '\n');
            let j = choose|j: int| 0 <= j < c@.len() && c@[j] == '\n' && forall|k: int|
                0 <= k < j ==> c@[k] != '\n';
            assert(j == i) by {
                if j < i {
                    assert(c@[j] != '\n');
                }
                if i < j {
                    assert(c@[i] != '\n');
                }
            }
        } else {
            assert(c@.take(end as int) =~= c@);
        }
    }
    let head = slice_chars(&c, 0, end);
    assert(head@ == first_line(text@));
    let line = trim(&head);
    if line.len() == 0 {
        proof {
            reveal_strlit("New chat");
        }
        return String::from_str(DEFAULT_SESSION_TITLE);
    }
    if line.len() > TITLE_MAX_CHARS {
        let mut cut = slice_chars(&line, 0, TITLE_MAX_CHARS);
        cut.push('\u{2026}');
        return string_of(&cut);
    }
    string_of(&line)
}

/// A session title is never empty and never longer than 41 chars (40 kept
/// chars plus the ellipsis).
pub proof fn law_title_is_short(text: Seq<char>)
    ensures
        0 < title_spec(text).len() <= 41,
{
    reveal_strlit("New chat");
}

/// Trimming leaves a text whose first and last chars are not whitespace as
/// it is.
proof fn lemma_trim_keeps_bounded(s: Seq<char>)
    requires
        s.len() > 0,
        !is_ws(s[0]),
        !is_ws(s.last()),
    ensures
        trim_spec(s) == s,
{
    assert(lead_ws(s) == 0);
    assert(trim_start_spec(s) =~= s);
    assert(trail_ws(s) == 0);
    assert(trim_end_spec(s) =~= s);
}

/// The trimmed text is a run of the text's chars, and when it is not empty its
/// first and last chars are not whitespace.
proof fn lemma_trim_shape(s: Seq<char>)
    ensures
        lead_ws(s) + trim_spec(s).len() <= s.len(),
        forall|i: int| 0 <= i < trim_spec(s).len() ==> #[trigger] trim_spec(s)[i] == s[lead_ws(s) + i],
        trim_spec(s).len() > 0 ==> !is_ws(trim_spec(s)[0]) && !is_ws(trim_spec(s).last()),
{
    lemma_lead_ws_bound(s);
    let t = trim_start_spec(s);
    lemma_trail_ws_bound(t);
    if trim_spec(s).len() > 0 {
        assert(t[0] == s[lead_ws(s) as int]);
    }
}

/// The first line holds no newline.
proof fn lemma_first_line_one_line(text: Seq<char>)
    ensures
        forall|k: int| 0 <= k < first_line(text).len() ==> #[trigger] first_line(text)[k] != '\n',
{
    if exists|i: int| 0 <= i < text.len() && text[i] == '\n' {
        let i = choose|i: int| 0 <= i < text.len() && text[i] == '\n' && forall|k: int|
            0 <= k < i ==> text[k] != '\n';
        let w = choose|i: int| 0 <= i < text.len() && text[i] == '\n';
        assert(exists|i: int| 0 <= i < text.len() && text[i] == '\n' && forall|k: int|
            0 <= k < i ==> text[k] != '\n') by {
            lemma_first_newline(text, w);
        }
        assert(first_line(text) == text.take(i));
    } else {
        assert forall|k: int| 0 <= k < text.len() implies text[k] != '\n' by {
            if text[k] == '\n' {
                assert(0 <= k < text.len() && text[k] == '\n');
            }
        }
    }
}

/// A text with a newline has a first newline.
proof fn lemma_first_newline(text: Seq<char>, w: int)
    requires
        0 <= w < text.len(),
        text[w] == '\n',
    ensures
        exists|i: int| 0 <= i < text.len() && text[i] == '\n' && forall|k: int| 0 <= k < i ==> text[k] != '\n',
    decreases w,
{
    if exists|j: int| 0 <= j < w && text[j] == '\n' {
        let j = choose|j: int| 0 <= j < w && text[j] == '\n';
        lemma_first_newline(text, j);
    } else {
        assert(forall|k: int| 0 <= k < w ==> text[k] != '\n');
    }
}

/// A session title is one line, and titling a title gives it back unchanged.
pub proof fn law_title_is_stable(text: Seq<char>)
    ensures
        forall|k: int| 0 <= k < title_spec(text).len() ==> #[trigger] title_spec(text)[k] != '\n',
        title_spec(title_spec(text)) == title_spec(text),
{
    reveal_strlit("New chat");
    let fl = first_line(text);
    lemma_first_line_one_line(text);
    let line = trim_spec(fl);
    lemma_trim_shape(fl);
    assert forall|k: int| 0 <= k < line.len() implies #[trigger] line[k] != '\n' by {
        assert(line[k] == fl[lead_ws(fl) + k]);
    }
    let t = title_spec(text);
    assert forall|k: int| 0 <= k < t.len() implies #[trigger] t[k] != '\n' by {
        if line.len() > 40 && k < 40 {
            assert(t[k] == line[k]);
        }
    }
    assert(!(exists|i: int| 0 <= i < t.len() && t[i] == '\n'));
    assert(first_line(t) == t);
    assert(t.len() > 0 && !is_ws(t[0]) && !is_ws(t.last())) by {
        if line.len() > 40 {
            assert(t[0] == line[0]);
        }
    }
    lemma_trim_keeps_bounded(t);
    if line.len() > 40 {
        assert(t.take(40) =~= line.take(40));
    }
}

/// A title depends on the first line alone: whatever follows the first
/// newline does not change it.
pub proof fn law_title_from_first_line(first: Seq<char>, rest: Seq<char>)
    requires
        forall|k: int| 0 <= k < first.len() ==> first[k] != '\n',
    ensures
        title_spec(first + seq!['\n'] + rest) == title_spec(first),
{
    let t = first + seq!['\n'] + rest;
    let n = first.len() as int;
    assert(t[n] == '\n');
    assert(forall|k: int| 0 <= k < n ==> t[k] == first[k]);
    let i = choose|i: int| 0 <= i < t.len() && t[i] == '\n' && forall|k: int| 0 <= k < i ==> t[k] != '\n';
    assert(i == n) by {
        if i < n {
            assert(t[i] == first[i]);
        }
        if n < i {
            assert(t[n] != '\n');
        }
    }
    assert(t.take(n) =~= first);
    assert(!(exists|j: int| 0 <= j < first.len() && first[j] == '\n'));
}

/// The strings `serde_json` reads from `text` as an array of strings, or
/// `None` when `text` is not one.
pub uninterp spec fn json_read_string_array(text: Seq<char>) -> Option<Seq<Seq<char>>>;

/// `serde_json::to_string` on a slice of strings: the JSON array of the
/// strings, written compactly as `[`, each string quoted and escaped as
/// [`json_string`](crate::text::json_string) says, separated by `,`, then `]`.
/// It fails only for a `Serialize` impl that fails or a map with non-string
/// keys, neither of which a slice of strings has, so it succeeds.
#[verifier::external_body]
fn write_string_array(items: &[String]) -> (r: Option<String>)
    ensures
        r is Some,
        r matches Some(s) ==> s@ == json_list(strs(items@)),
{
    serde_json::to_string(items).ok()
}

/// `serde_json::from_str::<Vec<String>>`: the strings of a JSON array of
/// strings, or `None` when the text is not one. Reading back what
/// `serde_json` wrote for an array of strings gives those strings.
#[verifier::external_body]
fn read_string_array(text: &str) -> (r: Option<Vec<String>>)
    ensures
        r is Some <==> json_read_string_array(text@) is Some,
        r matches Some(v) ==> json_read_string_array(text@) == Some(strs(v@)),
        (exists|items: Seq<Seq<char>>| #[trigger] json_list(items) == text@) ==> r is Some,
        r matches Some(v) ==> (forall|items: Seq<Seq<char>>| #[trigger] json_list(items) == text@
            ==> strs(v@) == items),
{
    serde_json::from_str::<Vec<String>>(text).ok()
}

/// The stored form of a message's tool labels: nothing for a message that used
/// no tools, else the labels as a JSON array.
pub fn encode_tool_labels(tools: &[String]) -> (r: Result<Option<String>, String>)
    ensures
        tools@.len() == 0 ==> r == Ok::<Option<String>, String>(None),
        tools@.len() > 0 ==> (r matches Ok(Some(s)) && s@ == json_list(strs(tools@))),
{
    if tools.len() == 0 {
        return Ok(None);
    }
    match write_string_array(tools) {
        Some(s) => Ok(Some(s)),
        None => Err(String::from_str("failed to serialize tool labels")),
    }
}

/// The labels read back from a stored message: those of the JSON array, or
/// none when nothing is stored or the stored text is not such an array.
pub open spec fn decoded_labels(raw: Option<Seq<char>>) -> Seq<Seq<char>> {
    match raw {
        Some(t) => match json_read_string_array(t) {
            Some(v) => v,
            None => seq![],
        },
        None => seq![],
    }
}

/// Read a message's stored tool labels back. What [`encode_tool_labels`]
/// stored comes back unchanged.
pub fn decode_tool_labels(raw: Option<&str>) -> (r: Vec<String>)
    ensures
        strs(r@) == decoded_labels(
            match raw {
                Some(t) => Some(t@),
                None => None,
            },
        ),
        forall|items: Seq<Seq<char>>| (raw matches Some(t) && #[trigger] json_list(items) == t@) ==> strs(
            r@,
        ) == items,
{
    match raw {
        Some(t) => match read_string_array(t) {
            Some(v) => v,
            None => {
                let v: Vec<String> = Vec::new();
                assert(strs(v@) =~= seq![]);
                v
            },
        },
        None => {
            let v: Vec<String> = Vec::new();
            assert(strs(v@) =~= seq![]);
            v
        },
    }
}

} // verus!
