//! What a feed's bytes must satisfy before `feed_rs` reads them, and the one
//! rewrite the library makes to them.
//!
//! `feed_rs` panics on some inputs rather than failing: on the time values of
//! the Media RSS and iTunes extensions (a digit run too long for `u64`, or a
//! non-ASCII decimal digit), on an author text whose e-mail address sits next
//! to a multi-byte char, and on an XML declaration that switches the encoding
//! after the reader's first 64 bytes. The library does not read the two
//! extensions, so it hides their namespaces (the parser then skips their
//! elements); a feed that could still reach one of the other panics is
//! refused before the parser sees it.
use vstd::prelude::*;

verus! {

/// The bytes of an ASCII text.
pub open spec fn ascii_bytes(s: Seq<char>) -> Seq<u8> {
    s.map_values(|c: char| c as u8)
}

/// The Media RSS namespace.
pub open spec fn media_ns() -> Seq<u8> {
    ascii_bytes("http://search.yahoo.com/mrss/"@)
}

/// The iTunes podcast namespace.
pub open spec fn itunes_ns() -> Seq<u8> {
    ascii_bytes("http://www.itunes.com/dtds/podcast-1.0.dtd"@)
}

/// `p` occurs in `b` at `i`.
pub open spec fn occurs_at(b: Seq<u8>, i: int, p: Seq<u8>) -> bool {
    0 <= i && i + p.len() <= b.len() && b.subrange(i, i + p.len()) == p
}

/// `p` occurs somewhere in `b`.
pub open spec fn contains_bytes(b: Seq<u8>, p: Seq<u8>) -> bool {
    exists|i: int| occurs_at(b, i, p)
}

/// An occurrence of `p` ends at `j`.
pub open spec fn ends_at(b: Seq<u8>, j: int, p: Seq<u8>) -> bool {
    occurs_at(b, j + 1 - p.len(), p)
}

/// `b` with the last byte of every occurrence of the two extension
/// namespaces replaced by `_`, so that the parser no longer recognises them.
pub open spec fn hide_extensions_spec(b: Seq<u8>) -> Seq<u8> {
    Seq::new(
        b.len(),
        |j: int|
            if ends_at(b, j, media_ns()) || ends_at(b, j, itunes_ns()) {
                95u8
            } else {
                b[j]
            },
    )
}

/// A byte that may stand in an e-mail match of the author parser: letters,
/// digits, `. _ % + - @` and the delimiters `< [ ( : > ] )`.
pub open spec fn email_byte(c: u8) -> bool {
    ||| (97 <= c && c <= 122)
    ||| (65 <= c && c <= 90)
    ||| (48 <= c && c <= 57)
    ||| c == 46 || c == 95 || c == 37 || c == 43 || c == 45 || c == 64
    ||| c == 60 || c == 91 || c == 40 || c == 58 || c == 62 || c == 93 || c == 41
}

/// A byte that may border a run of e-mail bytes: whitespace, quotes, a comma
/// or a slash, each read as itself whatever the document's encoding.
pub open spec fn plain_border(c: u8) -> bool {
    c == 32 || c == 9 || c == 10 || c == 13 || c == 34 || c == 39 || c == 44 || c == 47
}

/// Left of `p`, past the e-mail bytes, the run ends at the start or at a plain
/// border.
pub open spec fn left_border_plain(b: Seq<u8>, p: int) -> bool
    decreases p,
{
    if p <= 0 || p > b.len() {
        true
    } else if email_byte(b[p - 1]) {
        left_border_plain(b, p - 1)
    } else {
        plain_border(b[p - 1])
    }
}

/// Right of `p`, past the e-mail bytes, the run ends at the end or at a plain
/// border.
pub open spec fn right_border_plain(b: Seq<u8>, p: int) -> bool
    decreases b.len() - p,
{
    if p < 0 || p + 1 >= b.len() {
        true
    } else if email_byte(b[p + 1]) {
        right_border_plain(b, p + 1)
    } else {
        plain_border(b[p + 1])
    }
}

/// A character or JSON escape at `i` that could spell `@`: `&#` (or `&#x`)
/// followed by `0`, `64` or `40`, or `\u0040`.
pub open spec fn at_escape(b: Seq<u8>, i: int) -> bool {
    let j = if i + 2 < b.len() && (b[i + 2] == 120 || b[i + 2] == 88) {
        i + 3
    } else {
        i + 2
    };
    ||| (occurs_at(b, i, seq![38u8, 35u8]) && ((j < b.len() && b[j] == 48) || (j + 1 < b.len() && ((b[j]
        == 54 && b[j + 1] == 52) || (b[j] == 52 && b[j + 1] == 48)))))
    ||| occurs_at(b, i, seq![92u8, 117u8, 48u8, 48u8, 52u8, 48u8])
}

/// An XML declaration starts at `i`: `<?xml` then whitespace or `?`.
pub open spec fn decl_at(b: Seq<u8>, i: int) -> bool {
    &&& occurs_at(b, i, seq![60u8, 63u8, 120u8, 109u8, 108u8])
    &&& i + 5 < b.len()
    &&& (b[i + 5] == 32 || b[i + 5] == 9 || b[i + 5] == 10 || b[i + 5] == 13 || b[i + 5] == 63)
}

/// The declaration at `i` is closed by `?>` within the first 64 bytes.
pub open spec fn decl_closed(b: Seq<u8>, i: int) -> bool {
    exists|j: int| i + 5 <= j && j + 2 <= 64 && j + 1 < b.len() && #[trigger] b[j] == 63 && b[j + 1] == 62
}

/// The document starts with a UTF-8 byte-order mark.
pub open spec fn has_bom(b: Seq<u8>) -> bool {
    b.len() >= 3 && b[0] == 0xEF && b[1] == 0xBB && b[2] == 0xBF
}

/// What the library asks of a feed's bytes before `feed_rs` reads them:
/// no NUL or ESC byte; the first 64 bytes ASCII but for a leading UTF-8
/// byte-order mark; every XML declaration closed within those 64 bytes;
/// neither extension namespace; every run of e-mail bytes holding an `@`
/// bordered by plain bytes; and no escape that spells `@`.
pub open spec fn feed_safe(b: Seq<u8>) -> bool {
    &&& forall|i: int| 0 <= i < b.len() ==> #[trigger] b[i] != 0 && b[i] != 27
    &&& forall|i: int| 0 <= i < b.len() && i < 64 ==> #[trigger] b[i] < 128 || (i < 3 && has_bom(b))
    &&& forall|i: int| #[trigger] decl_at(b, i) ==> decl_closed(b, i)
    &&& !contains_bytes(b, media_ns())
    &&& !contains_bytes(b, itunes_ns())
    &&& forall|p: int| 0 <= p < b.len() && #[trigger] b[p] == 64 ==> left_border_plain(b, p) && right_border_plain(b, p)
    &&& forall|i: int| !(#[trigger] at_escape(b, i))
}

/// The bytes of an ASCII text.
fn ascii_of(s: &str) -> (v: Vec<u8>)
    ensures
        v@ == ascii_bytes(s@),
{
    let c = crate::text::chars_of(s);
    let mut v: Vec<u8> = Vec::new();
    let mut i: usize = 0;
    while i < c.len()
        invariant
            i <= c.len(),
            c@ == s@,
            v@ == ascii_bytes(c@.take(i as int)),
        decreases c.len() - i,
    {
        v.push(c[i] as u8);
        assert(ascii_bytes(c@.take(i + 1)) =~= ascii_bytes(c@.take(i as int)).push(c@[i as int] as u8));
        i += 1;
    }
    assert(c@.take(c.len() as int) =~= c@);
    v
}

/// Whether `p` occurs in `b` at `i`.
fn occurs_at_exec(b: &[u8], i: usize, p: &[u8]) -> (r: bool)
    ensures
        r == occurs_at(b@, i as int, p@),
{
    if p.len() > b.len() || i > b.len() - p.len() {
        return false;
    }
    let mut k: usize = 0;
    while k < p.len()
        invariant
            k <= p.len(),
            i + p.len() <= b.len(),
            forall|m: int| 0 <= m < k ==> b@[i + m] == p@[m],
        decreases p.len() - k,
    {
        if b[i + k] != p[k] {
            assert(b@.subrange(i as int, i + p.len())[k as int] != p@[k as int]);
            return false;
        }
        k += 1;
    }
    assert(b@.subrange(i as int, i + p.len()) =~= p@);
    true
}

/// Whether `p` occurs anywhere in `b`.
fn contains_exec(b: &[u8], p: &[u8]) -> (r: bool)
    requires
        p.len() > 0,
    ensures
        r == contains_bytes(b@, p@),
{
    let mut i: usize = 0;
    while i < b.len()
        invariant
            i <= b.len(),
            forall|k: int| 0 <= k < i ==> !occurs_at(b@, k, p@),
        decreases b.len() - i,
    {
        if occurs_at_exec(b, i, p) {
            return true;
        }
        i += 1;
    }
    assert forall|k: int| !occurs_at(b@, k, p@) by {
        if occurs_at(b@, k, p@) {
            assert(k < b.len());
        }
    }
    false
}

/// [`hide_extensions_spec`].
pub fn hide_extensions(b: &[u8]) -> (h: Vec<u8>)
    ensures
        h@ == hide_extensions_spec(b@),
{
    let media = ascii_of("http://search.yahoo.com/mrss/");
    let itunes = ascii_of("http://www.itunes.com/dtds/podcast-1.0.dtd");
    let mut h: Vec<u8> = Vec::new();
    let mut j: usize = 0;
    while j < b.len()
        invariant
            j <= b.len(),
            media@ == media_ns(),
            itunes@ == itunes_ns(),
            h@.len() == j,
            forall|k: int| 0 <= k < j ==> #[trigger] h@[k] == hide_extensions_spec(b@)[k],
        decreases b.len() - j,
    {
        let m = j + 1 >= media.len() && occurs_at_exec(b, j + 1 - media.len(), &media);
        let t = j + 1 >= itunes.len() && occurs_at_exec(b, j + 1 - itunes.len(), &itunes);
        proof {
            if j + 1 < media@.len() {
                assert(!ends_at(b@, j as int, media_ns()));
            }
            if j + 1 < itunes@.len() {
                assert(!ends_at(b@, j as int, itunes_ns()));
            }
        }
        if m || t {
            h.push(95u8);
        } else {
            h.push(b[j]);
        }
        j += 1;
    }
    assert(h@ =~= hide_extensions_spec(b@));
    h
}

fn is_email_byte(c: u8) -> (r: bool)
    ensures
        r == email_byte(c),
{
    (97 <= c && c <= 122) || (65 <= c && c <= 90) || (48 <= c && c <= 57) || c == 46 || c == 95 || c == 37
        || c == 43 || c == 45 || c == 64 || c == 60 || c == 91 || c == 40 || c == 58 || c == 62 || c == 93
        || c == 41
}

fn is_plain_border(c: u8) -> (r: bool)
    ensures
        r == plain_border(c),
{
    c == 32 || c == 9 || c == 10 || c == 13 || c == 34 || c == 39 || c == 44 || c == 47
}

fn left_plain(b: &[u8], p: usize) -> (r: bool)
    requires
        p <= b.len(),
    ensures
        r == left_border_plain(b@, p as int),
{
    let mut q = p;
    while q > 0 && is_email_byte(b[q - 1])
        invariant
            q <= p <= b.len(),
            left_border_plain(b@, p as int) == left_border_plain(b@, q as int),
        decreases q,
    {
        q -= 1;
    }
    q == 0 || is_plain_border(b[q - 1])
}

fn right_plain(b: &[u8], p: usize) -> (r: bool)
    requires
        p < b.len(),
    ensures
        r == right_border_plain(b@, p as int),
{
    let mut q = p;
    while q + 1 < b.len() && is_email_byte(b[q + 1])
        invariant
            p <= q < b.len(),
            right_border_plain(b@, p as int) == right_border_plain(b@, q as int),
        decreases b.len() - q,
    {
        q += 1;
    }
    q + 1 >= b.len() || is_plain_border(b[q + 1])
}

fn at_escape_exec(b: &[u8], i: usize) -> (r: bool)
    requires
        i < b.len(),
    ensures
        r == at_escape(b@, i as int),
{
    let amp = occurs_at_exec(b, i, &[38u8, 35u8]);
    let json = occurs_at_exec(b, i, &[92u8, 117u8, 48u8, 48u8, 52u8, 48u8]);
    proof {
        assert(seq![38u8, 35u8] =~= [38u8, 35u8]@);
        assert(seq![92u8, 117u8, 48u8, 48u8, 52u8, 48u8] =~= [92u8, 117u8, 48u8, 48u8, 52u8, 48u8]@);
    }
    let refs = if amp {
        let j = if b.len() - i > 2 && (b[i + 2] == 120 || b[i + 2] == 88) {
            i + 3
        } else {
            i + 2
        };
        (j < b.len() && b[j] == 48) || (j < b.len() && b.len() - j > 1 && ((b[j] == 54 && b[j + 1] == 52) || (b[j]
            == 52 && b[j + 1] == 48)))
    } else {
        false
    };
    refs || json
}

fn decl_closed_exec(b: &[u8], i: usize) -> (r: bool)
    ensures
        r == decl_closed(b@, i as int),
{
    if i >= 64 {
        return false;
    }
    let mut j = i + 5;
    while j <= 62 && j + 1 < b.len()
        invariant
            i + 5 <= j <= 69,
            forall|k: int| i + 5 <= k < j ==> !(#[trigger] b@[k] == 63 && b@[k + 1] == 62),
        decreases 64 - j,
    {
        if b[j] == 63 && b[j + 1] == 62 {
            return true;
        }
        j += 1;
    }
    false
}

/// Whether `b` satisfies [`feed_safe`].
pub fn feed_is_safe(b: &[u8]) -> (r: bool)
    ensures
        r == feed_safe(b@),
{
    let media = ascii_of("http://search.yahoo.com/mrss/");
    let itunes = ascii_of("http://www.itunes.com/dtds/podcast-1.0.dtd");
    proof {
        reveal_strlit("http://search.yahoo.com/mrss/");
        reveal_strlit("http://www.itunes.com/dtds/podcast-1.0.dtd");
    }
    if contains_exec(b, &media) || contains_exec(b, &itunes) {
        return false;
    }
    let bom = b.len() >= 3 && b[0] == 0xEF && b[1] == 0xBB && b[2] == 0xBF;
    let decl = [60u8, 63u8, 120u8, 109u8, 108u8];
    proof {
        assert(seq![60u8, 63u8, 120u8, 109u8, 108u8] =~= decl@);
    }
    let mut i: usize = 0;
    while i < b.len()
        invariant
            i <= b.len(),
            bom == has_bom(b@),
            decl@ == seq![60u8, 63u8, 120u8, 109u8, 108u8],
            forall|k: int| 0 <= k < i ==> #[trigger] b@[k] != 0 && b@[k] != 27,
            forall|k: int| 0 <= k < i && k < 64 ==> #[trigger] b@[k] < 128 || (k < 3 && has_bom(b@)),
            forall|k: int| 0 <= k < i ==> (#[trigger] decl_at(b@, k) ==> decl_closed(b@, k)),
            forall|k: int| 0 <= k < i && #[trigger] b@[k] == 64 ==> left_border_plain(b@, k) && right_border_plain(b@, k),
            forall|k: int| 0 <= k < i ==> !(#[trigger] at_escape(b@, k)),
        decreases b.len() - i,
    {
        let c = b[i];
        if c == 0 || c == 27 {
            return false;
        }
        if i < 64 && c >= 128 && !(i < 3 && bom) {
            return false;
        }
        let d = occurs_at_exec(b, i, &decl) && i + 5 < b.len() && (b[i + 5] == 32 || b[i + 5] == 9
            || b[i + 5] == 10 || b[i + 5] == 13 || b[i + 5] == 63);
        assert(d == decl_at(b@, i as int));
        if d && !decl_closed_exec(b, i) {
            return false;
        }
        if c == 64 && !(left_plain(b, i) && right_plain(b, i)) {
            return false;
        }
        if at_escape_exec(b, i) {
            return false;
        }
        i += 1;
    }
    assert forall|k: int| #[trigger] decl_at(b@, k) implies decl_closed(b@, k) by {}
    assert forall|k: int| !(#[trigger] at_escape(b@, k)) by {
        if !(0 <= k < b.len()) && at_escape(b@, k) {
            assert(false);
        }
    }
    true
}

} // verus!
