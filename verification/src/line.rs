//! One display line: the window of a row's text that is visible at a scroll
//! offset, padded with blanks to the display width.

use vstd::prelude::*;

verus! {

/// `count` blanks.
pub open spec fn blanks(count: int) -> Seq<char> {
    Seq::new(
        if count < 0 {
            0nat
        } else {
            count as nat
        },
        |i: int| ' ',
    )
}

/// `s` followed by as many blanks as it takes to reach `width` characters.
/// A sequence that is already that long is left as it is.
pub open spec fn pad_right(s: Seq<char>, width: int) -> Seq<char> {
    s + blanks(width - s.len())
}

/// As many blanks as it takes to reach `width` characters, followed by `s`.
pub open spec fn pad_left(s: Seq<char>, width: int) -> Seq<char> {
    blanks(width - s.len()) + s
}

/// The characters of `text` from `offset` on, at most `width` of them.
/// Past the end of the text the window is empty.
pub open spec fn window(text: Seq<char>, offset: int, width: int) -> Seq<char>
    recommends
        0 <= offset,
        0 <= width,
{
    if offset >= text.len() {
        Seq::empty()
    } else if text.len() - offset <= width {
        text.subrange(offset, text.len() as int)
    } else {
        text.subrange(offset, offset + width)
    }
}

/// What a row shows: a text that fits the display in full, a longer one
/// through the window at `offset`; either way padded to the width.
pub open spec fn rendered(text: Seq<char>, offset: int, width: int) -> Seq<char>
    recommends
        0 <= offset,
        0 <= width,
{
    if text.len() <= width {
        pad_right(text, width)
    } else {
        pad_right(window(text, offset, width), width)
    }
}

/// A text that fits is shown whole, whatever the offset, and the line is
/// exactly as wide as the display.
pub proof fn law_short_text_is_padded(text: Seq<char>, offset: int, width: int)
    requires
        text.len() <= width,
    ensures
        rendered(text, offset, width) == text + blanks(width - text.len()),
        rendered(text, offset, width).len() == width,
        rendered(text, offset, width).subrange(0, text.len() as int) == text,
        forall|i: int| text.len() <= i < width ==> rendered(text, offset, width)[i] == ' ',
{
}

/// A text that does not fit always fills the display: the line is exactly
/// `width` characters, the first of them taken from the text in order, and
/// blanks stand only where the text has run out.
pub proof fn law_long_text_fills_the_line(text: Seq<char>, offset: int, width: int)
    requires
        0 <= offset,
        0 <= width < text.len(),
    ensures
        rendered(text, offset, width).len() == width,
        forall|i: int|
            0 <= i < width && offset + i < text.len() ==> rendered(text, offset, width)[i]
                == text[offset + i],
        forall|i: int|
            0 <= i < width && offset + i >= text.len() ==> rendered(text, offset, width)[i] == ' ',
{
}

/// Appends `count` blanks to `line`.
pub fn push_blanks(line: &mut String, count: usize)
    ensures
        final(line)@ == old(line)@ + blanks(count as int),
{
    let mut done: usize = 0;
    while done < count
        invariant
            done <= count,
            line@ == old(line)@ + blanks(done as int),
        decreases count - done,
    {
        proof {
            reveal_strlit(" ");
        }
        line.append(" ");
        done = done + 1;
        assert(line@ =~= old(line)@ + blanks(done as int));
    }
}

/// Renders one row of the display from `text` at scroll position `offset`.
pub fn render_line(text: &str, offset: usize, width: usize) -> (line: String)
    ensures
        line@ == rendered(text@, offset as int, width as int),
{
    render_measured(text, text.unicode_len(), offset, width)
}

/// Renders one row of the display from a text whose length in characters,
/// `len`, is already known.
pub(crate) fn render_measured(text: &str, len: usize, offset: usize, width: usize) -> (line: String)
    requires
        len == text@.len(),
    ensures
        line@ == rendered(text@, offset as int, width as int),
{
    let from: usize = if len <= width {
        0
    } else if offset >= len {
        len
    } else {
        offset
    };
    let to: usize = if len - from <= width {
        len
    } else {
        from + width
    };
    let shown = text.substring_char(from, to);
    let mut line = String::from_str(shown);
    push_blanks(&mut line, width - (to - from));
    assert(line@ =~= rendered(text@, offset as int, width as int));
    line
}

} // verus!
