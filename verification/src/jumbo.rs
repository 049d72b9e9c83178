//! The jumbo glyph compositor.
//!
//! Oversized digits and the colon are assembled three character-rows tall
//! out of a small library of five custom 5x8 tiles (uploaded into the
//! device's character bank at startup), plus the solid block and the space.
//! Characters are placed left to right with one blank column between them;
//! a character's width is the longest of its three tile rows.

use vstd::prelude::*;
use crate::color::DIGIT_0;
use crate::color::DIGIT_9;
use crate::protocol::CustomCharacter;
use crate::screen::SPACE;

verus! {

/// Character-rows a jumbo line occupies.
pub const JUMBO_ROWS: usize = 3;

/// The ASCII colon byte.
pub const COLON: u8 = 0x3A;

/// On-screen byte for a solid block, a fully inked cell.
pub const SOLID: u8 = 0xFF;

/// Tile: bottom half inked, rising toward the right edge. Tag doubles as
/// upload slot and on-screen byte.
pub const HALF_BOTTOM_RIGHT: u8 = 0;

/// Tile: bottom half inked edge to edge.
pub const FULL_BOTTOM: u8 = 1;

/// Tile: bottom half inked, rising toward the left edge.
pub const HALF_BOTTOM_LEFT: u8 = 2;

/// Tile: fully inked but for the top-left corner.
pub const FULL_BOTTOM_RIGHT: u8 = 3;

/// Tile: fully inked but for the top-right corner.
pub const FULL_BOTTOM_LEFT: u8 = 4;

/// The pixel rows of the tile with tag `t`, top to bottom, low five bits of
/// each byte.
pub open spec fn tile_pixels(t: int) -> Seq<u8> {
    if t == HALF_BOTTOM_RIGHT {
        seq![0x00, 0x00, 0x00, 0x00, 0x01, 0x07, 0x0F, 0x1F]
    } else if t == FULL_BOTTOM {
        seq![0x00, 0x00, 0x00, 0x00, 0x1F, 0x1F, 0x1F, 0x1F]
    } else if t == HALF_BOTTOM_LEFT {
        seq![0x00, 0x00, 0x00, 0x00, 0x10, 0x1C, 0x1E, 0x1F]
    } else if t == FULL_BOTTOM_RIGHT {
        seq![0x01, 0x07, 0x0F, 0x1F, 0x1F, 0x1F, 0x1F, 0x1F]
    } else {
        seq![0x10, 0x1C, 0x1E, 0x1F, 0x1F, 0x1F, 0x1F, 0x1F]
    }
}

/// The five custom tiles, in upload order: tile `i` carries tag `i` and the
/// pixel rows of `tile_pixels(i)`.
pub fn custom_tiles() -> (tiles: Vec<CustomCharacter>)
    ensures
        tiles@.len() == 5,
        forall|i: int|
            0 <= i < 5 ==> (#[trigger] tiles@[i]).tag == i && tiles@[i].pixels@ == tile_pixels(i)
                && tiles@[i].wf(),
{
    let t0 = CustomCharacter {
        tag: HALF_BOTTOM_RIGHT,
        pixels: [0x00, 0x00, 0x00, 0x00, 0x01, 0x07, 0x0F, 0x1F],
    };
    let t1 = CustomCharacter {
        tag: FULL_BOTTOM,
        pixels: [0x00, 0x00, 0x00, 0x00, 0x1F, 0x1F, 0x1F, 0x1F],
    };
    let t2 = CustomCharacter {
        tag: HALF_BOTTOM_LEFT,
        pixels: [0x00, 0x00, 0x00, 0x00, 0x10, 0x1C, 0x1E, 0x1F],
    };
    let t3 = CustomCharacter {
        tag: FULL_BOTTOM_RIGHT,
        pixels: [0x01, 0x07, 0x0F, 0x1F, 0x1F, 0x1F, 0x1F, 0x1F],
    };
    let t4 = CustomCharacter {
        tag: FULL_BOTTOM_LEFT,
        pixels: [0x10, 0x1C, 0x1E, 0x1F, 0x1F, 0x1F, 0x1F, 0x1F],
    };
    proof {
        assert(t0.pixels@ =~= tile_pixels(0));
        assert(t1.pixels@ =~= tile_pixels(1));
        assert(t2.pixels@ =~= tile_pixels(2));
        assert(t3.pixels@ =~= tile_pixels(3));
        assert(t4.pixels@ =~= tile_pixels(4));
    }
    let mut tiles: Vec<CustomCharacter> = Vec::new();
    tiles.push(t0);
    tiles.push(t1);
    tiles.push(t2);
    tiles.push(t3);
    tiles.push(t4);
    tiles
}

/// Whether the compositor can draw this byte: the ten digits, space and
/// colon. Anything else is a hard error, never a silent blank.
pub open spec fn jumbo_supported(ch: u8) -> bool {
    (DIGIT_0 <= ch <= DIGIT_9) || ch == SPACE || ch == COLON
}

/// Whether every byte of a text can be drawn.
pub open spec fn jumbo_text_supported(text: Seq<u8>) -> bool {
    forall|i: int| 0 <= i < text.len() ==> jumbo_supported(#[trigger] text[i])
}

/// The three tile rows of one supported character, top to bottom.
pub open spec fn jumbo_char_rows(ch: u8) -> Seq<Seq<u8>> {
    if ch == DIGIT_0 {
        seq![
            seq![HALF_BOTTOM_RIGHT, FULL_BOTTOM, HALF_BOTTOM_LEFT],
            seq![SOLID, SPACE, SOLID],
            seq![FULL_BOTTOM_RIGHT, FULL_BOTTOM, FULL_BOTTOM_LEFT],
        ]
    } else if ch == DIGIT_0 + 1 {
        seq![
            seq![FULL_BOTTOM, HALF_BOTTOM_LEFT, SPACE],
            seq![SPACE, SOLID, SPACE],
            seq![FULL_BOTTOM, FULL_BOTTOM, FULL_BOTTOM],
        ]
    } else if ch == DIGIT_0 + 2 {
        seq![
            seq![HALF_BOTTOM_RIGHT, FULL_BOTTOM, HALF_BOTTOM_LEFT],
            seq![HALF_BOTTOM_RIGHT, FULL_BOTTOM, FULL_BOTTOM_LEFT],
            seq![SOLID, FULL_BOTTOM, FULL_BOTTOM],
        ]
    } else if ch == DIGIT_0 + 3 {
        seq![
            seq![HALF_BOTTOM_RIGHT, FULL_BOTTOM, HALF_BOTTOM_LEFT],
            seq![SPACE, FULL_BOTTOM, SOLID],
            seq![FULL_BOTTOM_RIGHT, FULL_BOTTOM, FULL_BOTTOM_LEFT],
        ]
    } else if ch == DIGIT_0 + 4 {
        seq![
            seq![SOLID, SPACE, SOLID],
            seq![FULL_BOTTOM_RIGHT, FULL_BOTTOM, SOLID],
            seq![SPACE, SPACE, SOLID],
        ]
    } else if ch == DIGIT_0 + 5 {
        seq![
            seq![SOLID, FULL_BOTTOM, FULL_BOTTOM],
            seq![FULL_BOTTOM, FULL_BOTTOM, HALF_BOTTOM_LEFT],
            seq![FULL_BOTTOM_RIGHT, FULL_BOTTOM, FULL_BOTTOM_LEFT],
        ]
    } else if ch == DIGIT_0 + 6 {
        seq![
            seq![HALF_BOTTOM_RIGHT, FULL_BOTTOM, HALF_BOTTOM_LEFT],
            seq![SOLID, FULL_BOTTOM, HALF_BOTTOM_LEFT],
            seq![FULL_BOTTOM_RIGHT, FULL_BOTTOM, FULL_BOTTOM_LEFT],
        ]
    } else if ch == DIGIT_0 + 7 {
        seq![
            seq![FULL_BOTTOM, FULL_BOTTOM, SOLID],
            seq![SPACE, HALF_BOTTOM_RIGHT, FULL_BOTTOM_LEFT],
            seq![SPACE, SOLID, SPACE],
        ]
    } else if ch == DIGIT_0 + 8 {
        seq![
            seq![HALF_BOTTOM_RIGHT, FULL_BOTTOM, HALF_BOTTOM_LEFT],
            seq![SOLID, FULL_BOTTOM, SOLID],
            seq![FULL_BOTTOM_RIGHT, FULL_BOTTOM, FULL_BOTTOM_LEFT],
        ]
    } else if ch == DIGIT_9 {
        seq![
            seq![HALF_BOTTOM_RIGHT, FULL_BOTTOM, HALF_BOTTOM_LEFT],
            seq![FULL_BOTTOM_RIGHT, FULL_BOTTOM, SOLID],
            seq![SPACE, SPACE, SOLID],
        ]
    } else if ch == COLON {
        seq![seq![FULL_BOTTOM], seq![SPACE], seq![FULL_BOTTOM]]
    } else {
        seq![seq![SPACE], seq![SPACE], seq![SPACE]]
    }
}

/// The larger of two lengths.
pub open spec fn max2(x: int, y: int) -> int {
    if x >= y {
        x
    } else {
        y
    }
}

/// A character's rendered width: the longest of its three tile rows.
pub open spec fn jumbo_char_width(ch: u8) -> int {
    let rows = jumbo_char_rows(ch);
    max2(rows[0].len() as int, max2(rows[1].len() as int, rows[2].len() as int))
}

/// `n` blank cells (none for `n <= 0`).
pub open spec fn spaces(n: int) -> Seq<u8> {
    if n <= 0 {
        Seq::empty()
    } else {
        Seq::new(n as nat, |i: int| SPACE)
    }
}

/// Row `j` of one character, padded with blanks to the character's width so
/// the three rows stay aligned.
pub open spec fn jumbo_padded_row(ch: u8, j: int) -> Seq<u8> {
    jumbo_char_rows(ch)[j] + spaces(jumbo_char_width(ch) - jumbo_char_rows(ch)[j].len())
}

/// The three composed rows of a jumbo text: characters left to right, one
/// blank column between neighbours.
pub open spec fn jumbo_rows(text: Seq<u8>) -> Seq<Seq<u8>>
    decreases text.len(),
{
    if text.len() == 0 {
        seq![Seq::empty(), Seq::empty(), Seq::empty()]
    } else {
        let prev = jumbo_rows(text.drop_last());
        let ch = text.last();
        let sep: Seq<u8> = if text.len() > 1 {
            seq![SPACE]
        } else {
            Seq::empty()
        };
        Seq::new(JUMBO_ROWS as nat, |j: int| prev[j] + sep + jumbo_padded_row(ch, j))
    }
}

/// The total rendered width of a jumbo text: the sum of the characters'
/// widths plus one blank column between each pair of neighbours.
pub open spec fn jumbo_width(text: Seq<u8>) -> int
    decreases text.len(),
{
    if text.len() == 0 {
        0
    } else {
        jumbo_width(text.drop_last()) + (if text.len() > 1 {
            1int
        } else {
            0int
        }) + jumbo_char_width(text.last())
    }
}

/// Every supported character is at most three cells wide, and each of its
/// three rows fits within its width.
proof fn lemma_char_rows_fit(ch: u8)
    ensures
        jumbo_char_rows(ch).len() == JUMBO_ROWS,
        forall|j: int|
            0 <= j < JUMBO_ROWS ==> jumbo_char_rows(ch)[j].len() <= jumbo_char_width(ch),
        1 <= jumbo_char_width(ch) <= 3,
{
}

/// A jumbo text has exactly three rows, each as long as the text's width.
pub proof fn lemma_jumbo_rows_len(text: Seq<u8>)
    ensures
        jumbo_rows(text).len() == JUMBO_ROWS,
        forall|j: int| 0 <= j < JUMBO_ROWS ==> (#[trigger] jumbo_rows(text)[j]).len()
            == jumbo_width(text),
    decreases text.len(),
{
    if text.len() > 0 {
        lemma_jumbo_rows_len(text.drop_last());
        lemma_char_rows_fit(text.last());
        assert forall|j: int| 0 <= j < JUMBO_ROWS implies (#[trigger] jumbo_rows(text)[j]).len()
            == jumbo_width(text) by {
            assert(jumbo_padded_row(text.last(), j).len() == jumbo_char_width(text.last()));
        }
    }
}

/// Extending a text by one character adds the character's width, plus one
/// separating blank column when the text was not empty.
pub proof fn lemma_jumbo_width_push(s: Seq<u8>, ch: u8)
    ensures
        jumbo_width(s.push(ch)) == jumbo_width(s) + (if s.len() > 0 {
            1int
        } else {
            0int
        }) + jumbo_char_width(ch),
{
    assert(s.push(ch).drop_last() =~= s);
    assert(s.push(ch).last() == ch);
}

/// The error for a byte the compositor cannot draw; it carries the byte.
#[derive(Copy, Clone, Debug, PartialEq, Eq, Structural)]
pub struct UnsupportedCharacter(pub u8);

/// The three tile rows of one supported character, as vectors.
fn char_pattern(ch: u8) -> (rows: (Vec<u8>, Vec<u8>, Vec<u8>))
    requires
        jumbo_supported(ch),
    ensures
        rows.0@ == jumbo_char_rows(ch)[0],
        rows.1@ == jumbo_char_rows(ch)[1],
        rows.2@ == jumbo_char_rows(ch)[2],
{
    if ch == DIGIT_0 {
        (
            vec![HALF_BOTTOM_RIGHT, FULL_BOTTOM, HALF_BOTTOM_LEFT],
            vec![SOLID, SPACE, SOLID],
            vec![FULL_BOTTOM_RIGHT, FULL_BOTTOM, FULL_BOTTOM_LEFT],
        )
    } else if ch == DIGIT_0 + 1 {
        (
            vec![FULL_BOTTOM, HALF_BOTTOM_LEFT, SPACE],
            vec![SPACE, SOLID, SPACE],
            vec![FULL_BOTTOM, FULL_BOTTOM, FULL_BOTTOM],
        )
    } else if ch == DIGIT_0 + 2 {
        (
            vec![HALF_BOTTOM_RIGHT, FULL_BOTTOM, HALF_BOTTOM_LEFT],
            vec![HALF_BOTTOM_RIGHT, FULL_BOTTOM, FULL_BOTTOM_LEFT],
            vec![SOLID, FULL_BOTTOM, FULL_BOTTOM],
        )
    } else if ch == DIGIT_0 + 3 {
        (
            vec![HALF_BOTTOM_RIGHT, FULL_BOTTOM, HALF_BOTTOM_LEFT],
            vec![SPACE, FULL_BOTTOM, SOLID],
            vec![FULL_BOTTOM_RIGHT, FULL_BOTTOM, FULL_BOTTOM_LEFT],
        )
    } else if ch == DIGIT_0 + 4 {
        (
            vec![SOLID, SPACE, SOLID],
            vec![FULL_BOTTOM_RIGHT, FULL_BOTTOM, SOLID],
            vec![SPACE, SPACE, SOLID],
        )
    } else if ch == DIGIT_0 + 5 {
        (
            vec![SOLID, FULL_BOTTOM, FULL_BOTTOM],
            vec![FULL_BOTTOM, FULL_BOTTOM, HALF_BOTTOM_LEFT],
            vec![FULL_BOTTOM_RIGHT, FULL_BOTTOM, FULL_BOTTOM_LEFT],
        )
    } else if ch == DIGIT_0 + 6 {
        (
            vec![HALF_BOTTOM_RIGHT, FULL_BOTTOM, HALF_BOTTOM_LEFT],
            vec![SOLID, FULL_BOTTOM, HALF_BOTTOM_LEFT],
            vec![FULL_BOTTOM_RIGHT, FULL_BOTTOM, FULL_BOTTOM_LEFT],
        )
    } else if ch == DIGIT_0 + 7 {
        (
            vec![FULL_BOTTOM, FULL_BOTTOM, SOLID],
            vec![SPACE, HALF_BOTTOM_RIGHT, FULL_BOTTOM_LEFT],
            vec![SPACE, SOLID, SPACE],
        )
    } else if ch == DIGIT_0 + 8 {
        (
            vec![HALF_BOTTOM_RIGHT, FULL_BOTTOM, HALF_BOTTOM_LEFT],
            vec![SOLID, FULL_BOTTOM, SOLID],
            vec![FULL_BOTTOM_RIGHT, FULL_BOTTOM, FULL_BOTTOM_LEFT],
        )
    } else if ch == DIGIT_9 {
        (
            vec![HALF_BOTTOM_RIGHT, FULL_BOTTOM, HALF_BOTTOM_LEFT],
            vec![FULL_BOTTOM_RIGHT, FULL_BOTTOM, SOLID],
            vec![SPACE, SPACE, SOLID],
        )
    } else if ch == COLON {
        (vec![FULL_BOTTOM], vec![SPACE], vec![FULL_BOTTOM])
    } else {
        (vec![SPACE], vec![SPACE], vec![SPACE])
    }
}

/// The larger of two lengths.
fn max2_usize(x: usize, y: usize) -> (r: usize)
    ensures
        r == max2(x as int, y as int),
{
    if x >= y {
        x
    } else {
        y
    }
}

/// Append a tile row, padded with blanks to the given width.
pub(crate) fn append_padded(out: &mut Vec<u8>, row: &Vec<u8>, w: usize)
    requires
        row@.len() <= w,
    ensures
        final(out)@ == old(out)@ + row@ + spaces(w - row@.len()),
{
    let mut k: usize = 0;
    while k < row.len()
        invariant
            k <= row@.len(),
            out@ == old(out)@ + row@.subrange(0, k as int),
        decreases row@.len() - k,
    {
        out.push(row[k]);
        proof {
            assert(out@ =~= old(out)@ + row@.subrange(0, k + 1));
        }
        k += 1;
    }
    proof {
        assert(out@ =~= old(out)@ + row@);
    }
    let mut p: usize = row.len();
    while p < w
        invariant
            row@.len() <= p <= w,
            out@ == old(out)@ + row@ + spaces(p - row@.len()),
        decreases w - p,
    {
        out.push(SPACE);
        p += 1;
        proof {
            assert(out@ =~= old(out)@ + row@ + spaces(p - row@.len()));
        }
    }
    proof {
        assert(out@ =~= old(out)@ + row@ + spaces(w - row@.len()));
    }
}

/// Render a jumbo text: three rows of on-screen bytes, or the first byte
/// the compositor cannot draw.
pub fn jumbo(text: &[u8]) -> (r: Result<(Vec<u8>, Vec<u8>, Vec<u8>), UnsupportedCharacter>)
    ensures
        r is Ok <==> jumbo_text_supported(text@),
        r matches Ok(rows) ==> rows.0@ == jumbo_rows(text@)[0] && rows.1@ == jumbo_rows(text@)[1]
            && rows.2@ == jumbo_rows(text@)[2],
        r matches Ok(rows) ==> rows.0@.len() == jumbo_width(text@) && rows.1@.len()
            == jumbo_width(text@) && rows.2@.len() == jumbo_width(text@),
        r matches Err(e) ==> exists|i: int|
            0 <= i < text@.len() && text@[i] == e.0 && !jumbo_supported(e.0),
{
    let mut top: Vec<u8> = Vec::new();
    let mut mid: Vec<u8> = Vec::new();
    let mut bot: Vec<u8> = Vec::new();
    let mut i: usize = 0;
    while i < text.len()
        invariant
            i <= text@.len(),
            jumbo_text_supported(text@.subrange(0, i as int)),
            top@ == jumbo_rows(text@.subrange(0, i as int))[0],
            mid@ == jumbo_rows(text@.subrange(0, i as int))[1],
            bot@ == jumbo_rows(text@.subrange(0, i as int))[2],
        decreases text@.len() - i,
    {
        let ch = text[i];
        if !(DIGIT_0 <= ch && ch <= DIGIT_9) && ch != SPACE && ch != COLON {
            proof {
                assert(text@[i as int] == ch);
                assert(!jumbo_supported(ch));
            }
            return Err(UnsupportedCharacter(ch));
        }
        if i > 0 {
            top.push(SPACE);
            mid.push(SPACE);
            bot.push(SPACE);
        }
        let (t, m, b) = char_pattern(ch);
        let w = max2_usize(t.len(), max2_usize(m.len(), b.len()));
        proof {
            lemma_char_rows_fit(ch);
            assert(w == jumbo_char_width(ch));
        }
        append_padded(&mut top, &t, w);
        append_padded(&mut mid, &m, w);
        append_padded(&mut bot, &b, w);
        proof {
            let prefix = text@.subrange(0, i as int);
            let next = text@.subrange(0, i + 1);
            assert(next.drop_last() =~= prefix);
            assert(next.last() == ch);
            assert(jumbo_text_supported(next));
            assert(top@ =~= jumbo_rows(next)[0]);
            assert(mid@ =~= jumbo_rows(next)[1]);
            assert(bot@ =~= jumbo_rows(next)[2]);
        }
        i += 1;
    }
    proof {
        assert(text@.subrange(0, text@.len() as int) =~= text@);
        lemma_jumbo_rows_len(text@);
    }
    Ok((top, mid, bot))
}

} // verus!
