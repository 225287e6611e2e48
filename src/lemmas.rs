use vstd::prelude::*;
use crate::vga_buffer::{
    at, blank, is_glyph, last_row, lemma_pack_bits, pack, sanitize_byte, sanitized, screen_wf,
    scrolled, step, write_all, ColorCode, Screen, ScreenChar, ESCAPE, ESCAPE_END, NEWLINE,
    PLACEHOLDER,
};

verus! {

/// The screen after a run of glyphs has been placed from the cursor on, without wrapping.
pub open spec fn glyph_run(s: Screen, bs: Seq<u8>) -> Screen {
    Screen {
        column: s.column + bs.len(),
        cells: Seq::new(
            2000,
            |i: int|
                if last_row() + s.column <= i < last_row() + s.column + bs.len() {
                    ScreenChar { character: bs[i - last_row() - s.column], color_code: ColorCode(s.color) }
                } else {
                    s.cells[i]
                },
        ),
        ..s
    }
}

/// A printable ASCII byte.
pub open spec fn is_printable(b: u8) -> bool {
    0x20 <= b && b <= 0x7e
}

/// Writing two runs of bytes is writing the first, then the second.
pub proof fn lemma_write_all_concat(s: Screen, a: Seq<u8>, b: Seq<u8>)
    ensures
        write_all(s, a + b) == write_all(write_all(s, a), b),
    decreases b.len(),
{
    if b.len() == 0 {
        assert(a + b =~= a);
    } else {
        assert((a + b).drop_last() =~= a + b.drop_last());
        assert((a + b).last() == b.last());
        lemma_write_all_concat(s, a, b.drop_last());
    }
}

/// Glyphs that fit on the bottom row are placed one after the other from the cursor,
/// in the active color, and the cursor ends just past them.
pub proof fn lemma_glyph_run(s: Screen, bs: Seq<u8>)
    requires
        screen_wf(s),
        !s.escape,
        s.column + bs.len() <= 80,
        forall|i: int| 0 <= i < bs.len() ==> is_glyph(#[trigger] bs[i]),
    ensures
        write_all(s, bs) == glyph_run(s, bs),
        screen_wf(glyph_run(s, bs)),
    decreases bs.len(),
{
    if bs.len() == 0 {
        assert(glyph_run(s, bs).cells =~= s.cells);
    } else {
        let p = bs.drop_last();
        assert forall|i: int| 0 <= i < p.len() implies is_glyph(#[trigger] p[i]) by {
            assert(p[i] == bs[i]);
        }
        lemma_glyph_run(s, p);
        let m = glyph_run(s, p);
        assert(is_glyph(bs[bs.len() - 1]));
        assert(step(m, bs.last()).cells =~= glyph_run(s, bs).cells);
    }
}

/// Printable text is left as it is by sanitizing.
pub proof fn lemma_sanitize_printable(bs: Seq<u8>)
    requires
        forall|i: int| 0 <= i < bs.len() ==> is_printable(#[trigger] bs[i]),
    ensures
        sanitized(bs) == bs,
{
    assert(sanitized(bs) =~= bs);
}

/// Printable text no longer than a row, written from the first column outside an escape
/// sequence, fills the first cells of the bottom row with its bytes in the active color,
/// leaves every other cell as it was, and puts the cursor at its length.
pub proof fn lemma_short_line(s: Screen, bs: Seq<u8>)
    requires
        screen_wf(s),
        s.column == 0,
        !s.escape,
        bs.len() <= 80,
        forall|i: int| 0 <= i < bs.len() ==> is_printable(#[trigger] bs[i]),
    ensures
        ({
            let t = write_all(s, sanitized(bs));
            &&& screen_wf(t)
            &&& t.column == bs.len()
            &&& t.color == s.color
            &&& !t.escape
            &&& forall|c: int| 0 <= c < bs.len()
                ==> t.cells[at(24, c)] == (ScreenChar { character: bs[c], color_code: ColorCode(s.color) })
            &&& forall|i: int| 0 <= i < 2000 && !(at(24, 0) <= i < at(24, bs.len() as int))
                ==> t.cells[i] == s.cells[i]
        }),
{
    lemma_sanitize_printable(bs);
    assert forall|i: int| 0 <= i < bs.len() implies is_glyph(#[trigger] bs[i]) by {
        assert(is_printable(bs[i]));
    }
    lemma_glyph_run(s, bs);
}

/// Printable text longer than a row but no longer than two, written from the first column
/// outside an escape sequence, wraps once: its first row's worth ends up one row above the
/// bottom, the rest starts the bottom row at column 0, and everything above moved up one row.
pub proof fn lemma_wrap_once(s: Screen, bs: Seq<u8>)
    requires
        screen_wf(s),
        s.column == 0,
        !s.escape,
        80 < bs.len() <= 160,
        forall|i: int| 0 <= i < bs.len() ==> is_printable(#[trigger] bs[i]),
    ensures
        ({
            let t = write_all(s, sanitized(bs));
            &&& screen_wf(t)
            &&& t.column == bs.len() - 80
            &&& !t.escape
            &&& forall|i: int| 0 <= i < at(23, 0) ==> t.cells[i] == s.cells[i + 80]
            &&& forall|c: int| 0 <= c < 80
                ==> t.cells[at(23, c)] == (ScreenChar { character: bs[c], color_code: ColorCode(s.color) })
            &&& forall|c: int| 0 <= c < bs.len() - 80
                ==> t.cells[at(24, c)] == (ScreenChar { character: bs[80 + c], color_code: ColorCode(s.color) })
            &&& forall|c: int| bs.len() - 80 <= c < 80 ==> t.cells[at(24, c)] == blank(s.color)
        }),
{
    lemma_sanitize_printable(bs);
    let first = bs.take(80);
    let x = bs[80];
    let rest = bs.skip(81);
    assert(bs =~= first + (seq![x] + rest));
    lemma_write_all_concat(s, first, seq![x] + rest);
    let t1 = write_all(s, first);
    lemma_write_all_concat(t1, seq![x], rest);
    assert forall|i: int| 0 <= i < first.len() implies is_glyph(#[trigger] first[i]) by {
        assert(is_printable(bs[i]));
    }
    lemma_glyph_run(s, first);
    assert(seq![x].drop_last() =~= Seq::<u8>::empty());
    assert(is_printable(bs[80]));
    let t2 = write_all(t1, seq![x]);
    assert(write_all(t1, Seq::<u8>::empty()) == t1);
    assert(seq![x].last() == x);
    assert(t2 == step(t1, x));
    assert(t2.column == 1);
    assert forall|i: int| 0 <= i < rest.len() implies is_glyph(#[trigger] rest[i]) by {
        assert(is_printable(bs[81 + i]));
    }
    lemma_glyph_run(t2, rest);
    let t = write_all(s, bs);
    assert(t == glyph_run(t2, rest));
    assert forall|c: int| 0 <= c < bs.len() - 80 implies t.cells[at(24, c)] == (ScreenChar {
        character: bs[80 + c],
        color_code: ColorCode(s.color),
    }) by {
        if c > 0 {
            assert(rest[c - 1] == bs[80 + c]);
        }
    }
}

/// The screen after `n` newlines: rows move up `n` places, the rows that come in are blank
/// in the active color.
pub open spec fn shifted(s: Screen, n: nat) -> Seq<ScreenChar> {
    Seq::new(2000, |i: int| if i + 80 * n < 2000 { s.cells[i + 80 * n] } else { blank(s.color) })
}

/// `n` newlines outside an escape sequence scroll the grid up by `n` rows, bringing in blank
/// rows at the bottom, and leave the cursor at column 0; after a full screen of them nothing
/// of the former content is left.
pub proof fn lemma_newlines(s: Screen, n: nat)
    requires
        screen_wf(s),
        !s.escape,
    ensures
        ({
            let t = write_all(s, Seq::new(n, |i: int| NEWLINE));
            &&& screen_wf(t)
            &&& t.cells == shifted(s, n)
            &&& n > 0 ==> t.column == 0
            &&& t.color == s.color
            &&& !t.escape
            &&& n >= 25 ==> t.cells == Seq::new(2000, |i: int| blank(s.color))
        }),
    decreases n,
{
    let bs = Seq::new(n, |i: int| NEWLINE);
    if n == 0 {
        assert(shifted(s, 0) =~= s.cells);
    } else {
        let m = (n - 1) as nat;
        lemma_newlines(s, m);
        assert(bs.drop_last() =~= Seq::new(m, |i: int| NEWLINE));
        let p = write_all(s, Seq::new(m, |i: int| NEWLINE));
        assert(write_all(s, bs) == step(p, NEWLINE));
        assert(scrolled(p).cells =~= shifted(s, n));
    }
    if n >= 25 {
        assert(shifted(s, n) =~= Seq::new(2000, |i: int| blank(s.color)));
    }
}

/// The sequence that sets the colors, `ESC, foreground + 16, background + 32, m`, from any
/// state, sets the active color to the packed pair and closes the escape sequence, and
/// touches nothing else.
pub proof fn lemma_color_sequence(s: Screen, foreground: u8, background: u8)
    requires
        foreground < 16,
        background < 16,
    ensures
        write_all(s, seq![ESCAPE, (foreground + 16) as u8, (background + 32) as u8, ESCAPE_END])
            == (Screen { color: pack(foreground, background), escape: false, ..s }),
        write_all(s, seq![ESCAPE, (foreground + 16) as u8, (background + 32) as u8, ESCAPE_END])
            == step(step(step(step(s, ESCAPE), (foreground + 16) as u8), (background + 32) as u8), ESCAPE_END),
{
    let f = (foreground + 16) as u8;
    let b = (background + 32) as u8;
    let bs = seq![ESCAPE, f, b, ESCAPE_END];
    let b1 = seq![ESCAPE];
    let b2 = seq![ESCAPE, f];
    let b3 = seq![ESCAPE, f, b];
    assert(b1.drop_last() =~= Seq::<u8>::empty());
    assert(b2.drop_last() =~= b1);
    assert(b3.drop_last() =~= b2);
    assert(bs.drop_last() =~= b3);
    assert(write_all(s, Seq::<u8>::empty()) == s);
    assert(write_all(s, b1) == step(s, ESCAPE));
    assert(write_all(s, b2) == step(write_all(s, b1), f));
    assert(write_all(s, b3) == step(write_all(s, b2), b));
    assert(write_all(s, bs) == step(write_all(s, b3), ESCAPE_END));
    lemma_pack_bits(foreground, 0);
    lemma_pack_bits(foreground, background);
}

/// For every pair of palette indices, a glyph written right after the color sequence is
/// stored with the color byte `foreground | (background << 4)`.
pub proof fn lemma_color_then_glyph(s: Screen, foreground: u8, background: u8, g: u8)
    requires
        screen_wf(s),
        foreground < 16,
        background < 16,
        is_glyph(g),
    ensures
        ({
            let t = write_all(s, seq![ESCAPE, (foreground + 16) as u8, (background + 32) as u8, ESCAPE_END, g]);
            &&& screen_wf(t)
            &&& 1 <= t.column <= 80
            &&& t.cells[last_row() + t.column - 1] == (ScreenChar {
                character: g,
                color_code: ColorCode(foreground | (background << 4u8)),
            })
        }),
{
    let f = (foreground + 16) as u8;
    let b = (background + 32) as u8;
    let head = seq![ESCAPE, f, b, ESCAPE_END];
    let bs = seq![ESCAPE, f, b, ESCAPE_END, g];
    assert(bs.drop_last() =~= head);
    lemma_color_sequence(s, foreground, background);
    lemma_pack_bits(foreground, background);
    assert(write_all(s, bs) == step(write_all(s, head), g));
}

/// A backspace right after a glyph blanks the glyph's cell in the active color and moves
/// the cursor back onto it; when the glyph did not wrap, the grid is as it was before the
/// glyph but for that blank.
pub proof fn lemma_backspace_after_glyph(s: Screen, g: u8)
    requires
        screen_wf(s),
        !s.escape,
        is_glyph(g),
    ensures
        ({
            let t = step(s, g);
            let u = step(t, 0x08);
            &&& screen_wf(u)
            &&& u.column == t.column - 1
            &&& u.cells[last_row() + u.column] == blank(s.color)
            &&& u.cells == t.cells.update(last_row() + u.column, blank(s.color))
            &&& !u.escape
            &&& s.column < 80 ==> u.column == s.column && u.cells == s.cells.update(
                last_row() + s.column,
                blank(s.color),
            )
        }),
{
    let t = step(s, g);
    let u = step(t, 0x08);
    if s.column < 80 {
        assert(u.cells =~= s.cells.update(last_row() + s.column, blank(s.color)));
    }
}

/// A backspace at column 0 outside an escape sequence changes nothing.
pub proof fn lemma_backspace_at_start(s: Screen)
    requires
        s.column == 0,
        !s.escape,
    ensures
        step(s, 0x08) == s,
{
}

/// Sanitized text holds no escape marker: each one is replaced by the placeholder glyph,
/// which is written as an ordinary cell, so text written outside an escape sequence never
/// opens one.
pub proof fn lemma_sanitized_never_escapes(s: Screen, bs: Seq<u8>)
    requires
        !s.escape,
    ensures
        sanitized(bs).len() == bs.len(),
        forall|i: int| 0 <= i < bs.len() ==> sanitized(bs)[i] != ESCAPE,
        forall|i: int| 0 <= i < bs.len() && bs[i] == ESCAPE ==> sanitized(bs)[i] == PLACEHOLDER,
        is_glyph(PLACEHOLDER),
        !write_all(s, sanitized(bs)).escape,
    decreases bs.len(),
{
    if bs.len() > 0 {
        let p = bs.drop_last();
        lemma_sanitized_never_escapes(s, p);
        assert(sanitized(bs).drop_last() =~= sanitized(p));
        assert(sanitized(bs).last() == sanitize_byte(bs.last()));
    }
}

} // verus!
