//! The display buffer writer: clipping, padding and truncation of one row,
//! with escape sequences left out of the width accounting.
//!
//! An escape sequence starts at an escape character met outside a sequence
//! and runs up to and including the next `m`.

use vstd::prelude::*;
use crate::text::{chars_of, push_chars, push_repeated, push_str, repeated, string_of};

verus! {

/// Interior width of a row, in visible characters: the frame is 60 columns
/// wide and its two outer columns hold the border.
pub const TABLE_WIDTH: usize = 58;

/// Width of a whole row, border columns included.
pub const FRAME_WIDTH: usize = 60;

/// Style code that ends every colouring.
pub const RESET: &'static str = "\x1b[0m";

/// Style code of the border.
pub const BORDER_COLOR: &'static str = "\x1b[38;5;225m";

/// The character that opens an escape sequence.
pub open spec fn escape() -> char {
    '\x1b'
}

/// Whether the end of `s` lies inside an escape sequence that has not been
/// closed yet.
pub open spec fn in_escape(s: Seq<char>) -> bool
    decreases s.len(),
{
    if s.len() == 0 {
        false
    } else if in_escape(s.drop_last()) {
        s.last() != 'm'
    } else {
        s.last() == escape()
    }
}

/// Whether the character at position `i` of `s` takes up a column: it lies
/// outside every escape sequence.
pub open spec fn is_visible_at(s: Seq<char>, i: int) -> bool {
    !in_escape(s.take(i)) && s[i] != escape()
}

/// Number of characters of `s` that take up a column.
pub open spec fn visible_len(s: Seq<char>) -> nat
    decreases s.len(),
{
    if s.len() == 0 {
        0
    } else if is_visible_at(s, s.len() - 1) {
        visible_len(s.drop_last()) + 1
    } else {
        visible_len(s.drop_last())
    }
}

/// `s` without the visible characters that come after the first `width`
/// visible ones; every escape sequence is kept whole.
pub open spec fn clamped(s: Seq<char>, width: nat) -> Seq<char>
    decreases s.len(),
{
    if s.len() == 0 {
        Seq::empty()
    } else if !is_visible_at(s, s.len() - 1) || visible_len(s.drop_last()) < width {
        clamped(s.drop_last(), width).push(s.last())
    } else {
        clamped(s.drop_last(), width)
    }
}

/// Number of visible characters that `s` shows in a field of `width`
/// columns: its own, or `width` where it has more.
pub open spec fn shown_len(s: Seq<char>, width: nat) -> nat {
    if visible_len(s) <= width {
        visible_len(s)
    } else {
        width
    }
}

/// `s` cut down to at most `n` characters: unchanged where it fits, `n` dots
/// where `n` is at most 3, else its first `n - 3` characters and three dots.
pub open spec fn truncated(s: Seq<char>, n: nat) -> Seq<char> {
    if s.len() <= n {
        s
    } else if n <= 3 {
        repeated('.', n)
    } else {
        s.take(n - 3) + repeated('.', 3)
    }
}

/// Cuts `text` down to at most `len` characters, marking the cut with dots.
pub fn truncate(text: &str, len: usize) -> (out: String)
    ensures
        out@ == truncated(text@, len as nat),
        out@.len() <= len,
        visible_len(out@) <= len,
{
    let chars = chars_of(text);
    let cut = truncate_chars(&chars, len);
    proof {
        lemma_visible_bound(cut@);
    }
    string_of(&cut)
}

/// Clips `chars` to `width` visible characters. Escape sequences pass
/// through unaltered and count for nothing. Returns the clipped text and the
/// number of visible characters it holds.
pub fn clamp_chars(chars: &Vec<char>, width: usize) -> (out: (Vec<char>, usize))
    ensures
        out.0@ == clamped(chars@, width as nat),
        out.1 == shown_len(chars@, width as nat),
        out.1 == visible_len(out.0@),
        out.1 <= width,
{
    proof {
        law_clamped(chars@, width as nat);
    }
    let mut buf: Vec<char> = Vec::new();
    let mut visible: usize = 0;
    let mut inside: bool = false;
    let mut i: usize = 0;
    while i < chars.len()
        invariant
            i <= chars.len(),
            inside == in_escape(chars@.take(i as int)),
            visible == shown_len(chars@.take(i as int), width as nat),
            buf@ == clamped(chars@.take(i as int), width as nat),
        decreases chars.len() - i,
    {
        let ch = chars[i];
        proof {
            let next = chars@.take(i as int + 1);
            assert(next.drop_last() == chars@.take(i as int));
            assert(next.take(next.len() - 1) == chars@.take(i as int));
            assert(next.last() == ch);
        }
        if inside {
            buf.push(ch);
            if ch == 'm' {
                inside = false;
            }
        } else if ch == '\x1b' {
            buf.push(ch);
            inside = true;
        } else if visible < width {
            buf.push(ch);
            visible += 1;
        }
        i += 1;
    }
    assert(chars@.take(i as int) == chars@);
    (buf, visible)
}

/// Clips `content` to `width` visible characters. Escape sequences pass
/// through unaltered and count for nothing. Returns the clipped text and the
/// number of visible characters it holds.
pub fn clamp_display(content: &str, width: usize) -> (out: (String, usize))
    ensures
        out.0@ == clamped(content@, width as nat),
        out.1 == shown_len(content@, width as nat),
        out.1 == visible_len(out.0@),
        out.1 <= width,
{
    let chars = chars_of(content);
    let (buf, visible) = clamp_chars(&chars, width);
    (string_of(&buf), visible)
}

/// The vertical border in its colour, as it stands at both ends of a row.
pub open spec fn border_text() -> Seq<char> {
    BORDER_COLOR@ + "│"@ + RESET@
}

/// One bordered row: `content` clipped to the interior width and padded
/// with spaces up to it, between two vertical borders.
pub open spec fn row_text(content: Seq<char>) -> Seq<char> {
    border_text() + clamped(content, TABLE_WIDTH as nat) + repeated(
        ' ',
        (TABLE_WIDTH - shown_len(content, TABLE_WIDTH as nat)) as nat,
    ) + border_text()
}

/// Renders one bordered row of the frame from the characters of `content`.
pub fn row_of(content: &Vec<char>) -> (row: String)
    ensures
        row@ == row_text(content@),
        !in_escape(content@) ==> visible_len(row@) == FRAME_WIDTH,
{
    proof {
        if !in_escape(content@) {
            law_row_width(content@);
        }
    }
    let (prepared, visible) = clamp_chars(content, TABLE_WIDTH);
    let mut buf: Vec<char> = Vec::new();
    push_str(&mut buf, BORDER_COLOR);
    push_str(&mut buf, "│");
    push_str(&mut buf, RESET);
    push_chars(&mut buf, &prepared);
    push_repeated(&mut buf, ' ', TABLE_WIDTH - visible);
    push_str(&mut buf, BORDER_COLOR);
    push_str(&mut buf, "│");
    push_str(&mut buf, RESET);
    string_of(&buf)
}

/// Renders one bordered row of the frame from `content`.
pub fn table_row(content: &str) -> (row: String)
    ensures
        row@ == row_text(content@),
        !in_escape(content@) ==> visible_len(row@) == FRAME_WIDTH,
{
    let chars = chars_of(content);
    row_of(&chars)
}

/// Cuts `chars` down to at most `len` characters, marking the cut with dots.
pub fn truncate_chars(chars: &Vec<char>, len: usize) -> (out: Vec<char>)
    ensures
        out@ == truncated(chars@, len as nat),
        out@.len() <= len,
{
    let mut buf: Vec<char> = Vec::new();
    if chars.len() <= len {
        push_chars(&mut buf, chars);
    } else if len <= 3 {
        push_repeated(&mut buf, '.', len);
    } else {
        let keep: usize = len - 3;
        let mut i: usize = 0;
        while i < keep
            invariant
                i <= keep,
                keep < chars.len(),
                buf@ == chars@.take(i as int),
            decreases keep - i,
        {
            buf.push(chars[i]);
            i += 1;
        }
        push_repeated(&mut buf, '.', 3);
    }
    buf
}

/// Whether `code` is a style code: an escape sequence and nothing else.
pub open spec fn is_style(code: Seq<char>) -> bool {
    &&& code.len() >= 2
    &&& code.first() == escape()
    &&& code.last() == 'm'
    &&& forall|i: int| 0 < i < code.len() - 1 ==> #[trigger] code[i] != 'm'
}

/// Whether `s` holds no escape character.
pub open spec fn is_plain(s: Seq<char>) -> bool {
    forall|i: int| 0 <= i < s.len() ==> #[trigger] s[i] != escape()
}

/// No text shows more characters than it has.
pub proof fn lemma_visible_bound(s: Seq<char>)
    ensures
        visible_len(s) <= s.len(),
    decreases s.len(),
{
    if s.len() > 0 {
        lemma_visible_bound(s.drop_last());
    }
}

/// After a text that ends outside every escape sequence, another text is
/// read as it would be on its own: the visible lengths add up.
pub proof fn lemma_visible_concat(a: Seq<char>, b: Seq<char>)
    requires
        !in_escape(a),
    ensures
        in_escape(a + b) == in_escape(b),
        visible_len(a + b) == visible_len(a) + visible_len(b),
    decreases b.len(),
{
    if b.len() == 0 {
        assert(a + b == a);
    } else {
        let whole = a + b;
        lemma_visible_concat(a, b.drop_last());
        assert(whole.drop_last() == a + b.drop_last());
        assert(whole.take(whole.len() - 1) == whole.drop_last());
        assert(b.take(b.len() - 1) == b.drop_last());
    }
}

/// An escape sequence that no `m` has closed yet shows nothing.
proof fn lemma_open_escape(s: Seq<char>)
    requires
        s.len() >= 1,
        s.first() == escape(),
        forall|i: int| 0 < i < s.len() ==> #[trigger] s[i] != 'm',
    ensures
        in_escape(s),
        visible_len(s) == 0,
    decreases s.len(),
{
    assert(s.take(s.len() - 1) == s.drop_last());
    if s.len() > 1 {
        lemma_open_escape(s.drop_last());
    } else {
        assert(visible_len(s.drop_last()) == 0);
        assert(!in_escape(s.drop_last()));
    }
}

/// A style code shows nothing and ends outside every escape sequence.
pub proof fn lemma_style(code: Seq<char>)
    requires
        is_style(code),
    ensures
        !in_escape(code),
        visible_len(code) == 0,
{
    assert(code.take(code.len() - 1) == code.drop_last());
    lemma_open_escape(code.drop_last());
}

/// A text without an escape character shows every character it has.
pub proof fn lemma_plain(s: Seq<char>)
    requires
        is_plain(s),
    ensures
        !in_escape(s),
        visible_len(s) == s.len(),
    decreases s.len(),
{
    if s.len() > 0 {
        assert(s.take(s.len() - 1) == s.drop_last());
        lemma_plain(s.drop_last());
    }
}

/// Clipping keeps every escape sequence and the first `width` visible
/// characters: the clipped text shows `width` characters, or all where
/// there are fewer, and ends inside an escape sequence exactly where the
/// text itself does.
pub proof fn law_clamped(s: Seq<char>, width: nat)
    ensures
        visible_len(clamped(s, width)) == shown_len(s, width),
        visible_len(clamped(s, width)) <= width,
        in_escape(clamped(s, width)) == in_escape(s),
        clamped(s, width).len() <= s.len(),
    decreases s.len(),
{
    if s.len() > 0 {
        let front = s.drop_last();
        law_clamped(front, width);
        assert(s.take(s.len() - 1) == front);
        let kept = clamped(front, width);
        if !is_visible_at(s, s.len() - 1) || visible_len(front) < width {
            let out = kept.push(s.last());
            assert(out.drop_last() == kept);
            assert(out.take(out.len() - 1) == kept);
        }
    }
}

/// The vertical border takes one column and ends outside every escape
/// sequence.
pub proof fn lemma_border()
    ensures
        !in_escape(border_text()),
        visible_len(border_text()) == 1,
{
    reveal_strlit("\x1b[38;5;225m");
    reveal_strlit("\x1b[0m");
    reveal_strlit("│");
    lemma_style(BORDER_COLOR@);
    lemma_style(RESET@);
    lemma_plain("│"@);
    lemma_visible_concat(BORDER_COLOR@, "│"@);
    lemma_visible_concat(BORDER_COLOR@ + "│"@, RESET@);
}

/// Every row is clipped and padded to exactly the interior width: a row
/// made of a content that ends outside every escape sequence takes up the
/// width of the frame, whatever the content is.
pub proof fn law_row_width(content: Seq<char>)
    requires
        !in_escape(content),
    ensures
        visible_len(row_text(content)) == FRAME_WIDTH,
        !in_escape(row_text(content)),
{
    let shown = clamped(content, TABLE_WIDTH as nat);
    let padding = repeated(' ', (TABLE_WIDTH - shown_len(content, TABLE_WIDTH as nat)) as nat);
    lemma_border();
    law_clamped(content, TABLE_WIDTH as nat);
    lemma_plain(padding);
    lemma_visible_concat(border_text(), shown);
    lemma_visible_concat(border_text() + shown, padding);
    lemma_visible_concat(border_text() + shown + padding, border_text());
}

} // verus!
