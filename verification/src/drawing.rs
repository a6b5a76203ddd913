//! What every widget draws besides its content: the header and footer
//! rows, blanking its area, the status line, the frames of sliding in, and
//! its size after the terminal was resized.
use vstd::prelude::*;
use crate::coordinates::{Coordinates, Position, Size};
use crate::term::{
    ansi_cuttable, bg_code, concat, fg_code, goto_code, goto_xy, header_color, invert, move_bottom,
    normal_color, reset, sized_string_u, sized_text, status_bg, try_sized_string_u,
};
use crate::text::chars_to_string;

verus! {

/// `n` spaces.
pub open spec fn blanks(n: nat) -> Seq<char> {
    Seq::new(n, |i: int| ' ')
}

/// A space padded to `width` columns, as `{:width$}` writes `" "`.
pub open spec fn padded_space(width: nat) -> Seq<char> {
    if width <= 1 {
        blanks(1)
    } else {
        blanks(width)
    }
}

fn spaces_of(n: usize) -> (r: String)
    ensures
        r@ == blanks(n as nat),
{
    let mut v: Vec<char> = Vec::new();
    let mut i: usize = 0;
    while i < n
        invariant
            i <= n,
            v@ == blanks(i as nat),
        decreases n - i,
    {
        v.push(' ');
        i += 1;
        assert(v@ =~= blanks(i as nat));
    }
    chars_to_string(&v)
}

fn padded(width: usize) -> (r: String)
    ensures
        r@ == padded_space(width as nat),
{
    if width <= 1 {
        spaces_of(1)
    } else {
        spaces_of(width)
    }
}

/// The header row: blanked in the header's colors across `xsize`
/// columns, then `header` from its start.
pub open spec fn header_row(xsize: u16, header: Seq<char>) -> Seq<char> {
    goto_code(1, 1) + fg_code(7) + bg_code(4) + padded_space(xsize as nat) + goto_code(1, 1) + header
}

/// The header row of a widget `xsize` columns wide.
pub fn header_drawlist(xsize: u16, header: &str) -> (r: String)
    ensures
        r@ == header_row(xsize, header@),
{
    let mut out = concat(goto_xy(1, 1), header_color());
    out = concat(out, padded(xsize as usize));
    out = concat(out, goto_xy(1, 1));
    concat(out, String::from_str(header))
}

/// The footer row on row `ypos`: blanked in the header's colors across
/// `xsize` columns, then `footer` from its start.
pub open spec fn footer_row(xsize: u16, ypos: u16, footer: Seq<char>) -> Seq<char> {
    goto_code(1, ypos) + fg_code(7) + bg_code(4) + padded_space(xsize as nat) + goto_code(1, ypos)
        + footer
}

/// The footer row of a widget `xsize` columns wide on the terminal's last
/// row, `ypos`.
pub fn footer_drawlist(xsize: u16, ypos: u16, footer: &str) -> (r: String)
    ensures
        r@ == footer_row(xsize, ypos, footer@),
{
    let mut out = concat(goto_xy(1, ypos), header_color());
    out = concat(out, padded(xsize as usize));
    out = concat(out, goto_xy(1, ypos));
    concat(out, String::from_str(footer))
}

/// Blanking rows `from` up to (not including) `to` at column `xpos`, each
/// with `lead` before it.
pub open spec fn blank_rows(lead: Seq<char>, xpos: u16, from: int, to: int, width: nat) -> Seq<char>
    decreases to - from,
{
    if to <= from {
        Seq::empty()
    } else {
        blank_rows(lead, xpos, from, to - 1, width) + lead + goto_code(xpos, (to - 1) as u16)
            + padded_space(width)
    }
}

/// What blanks a widget's area: each of its rows reset, reached and filled
/// with spaces.
pub fn clearlist(c: &Coordinates) -> (r: String)
    requires
        c.position.0.1 + c.size.0.1 <= u16::MAX,
        c.position.0.0 >= 1,
    ensures
        r@ == blank_rows(
            "\x1b[m"@,
            c.position.0.0,
            c.position.0.1 as int,
            c.position.0.1 + c.size.0.1,
            c.size.0.0 as nat,
        ),
{
    let (xpos, ypos) = c.position.0;
    let (xsize, ysize) = c.size.0;
    let end = ypos + ysize;
    let mut out = String::new();
    let mut line = ypos;
    while line < end
        invariant
            ypos <= line <= end,
            end == ypos + ysize,
            xpos >= 1,
            out@ == blank_rows("\x1b[m"@, xpos, ypos as int, line as int, xsize as nat),
        decreases end - line,
    {
        out = concat(out, reset());
        out = concat(out, goto_xy(xpos, line));
        out = concat(out, padded(xsize as usize));
        line = line + 1;
    }
    out
}

/// What blanks the rows of a list below its `lines` lines, down to the row
/// below its last one.
pub fn redraw_empty_list(c: &Coordinates, lines: usize) -> (r: String)
    requires
        c.position.0.0 >= 1,
        lines + c.position.0.1 <= u16::MAX,
    ensures
        r@ == blank_rows(
            Seq::empty(),
            c.position.0.0,
            lines + c.position.0.1,
            c.size.0.1 + 2,
            c.size.0.0 as nat,
        ),
{
    let (xpos, ypos) = c.position.0;
    let (xsize, ysize) = c.size.0;
    let start: usize = lines + ypos as usize;
    let end: usize = ysize as usize + 2;
    let mut out = String::new();
    let mut i = start;
    while i < end
        invariant
            start <= i,
            i <= end || start >= end,
            start >= end ==> i == start,
            end == ysize as usize + 2,
            start <= u16::MAX,
            xpos >= 1,
            out@ == blank_rows(Seq::empty(), xpos, start as int, i as int, xsize as nat),
        decreases end - i,
    {
        out = concat(out, goto_xy(xpos, i as u16));
        out = concat(out, padded(xsize as usize));
        proof {
            assert(Seq::<char>::empty() + goto_code(xpos, i as u16) =~= goto_code(xpos, i as u16));
            assert(blank_rows(Seq::empty(), xpos, start as int, i + 1, xsize as nat) == blank_rows(
                Seq::empty(),
                xpos,
                start as int,
                i as int,
                xsize as nat,
            ) + Seq::<char>::empty() + goto_code(xpos, i as u16) + padded_space(xsize as nat));
        }
        i = i + 1;
    }
    proof {
        if start >= end {
            assert(blank_rows(Seq::empty(), xpos, start as int, end as int, xsize as nat) =~= Seq::<
                char,
            >::empty());
            assert(blank_rows(Seq::empty(), xpos, start as int, start as int, xsize as nat) =~= Seq::<
                char,
            >::empty());
            assert(i == start);
        } else {
            assert(i == end);
        }
    }
    out
}

/// The status line: at the bottom row of a terminal `ysize` rows high, on
/// the status background, `status` fitted to `xsize` columns.
pub fn status_line(xsize: usize, ysize: u16, status: &str) -> (r: String)
    requires
        ansi_cuttable(status@),
    ensures
        r@ == goto_code(1, ysize) + bg_code(12) + sized_text(status@, xsize as int),
{
    let sized = sized_string_u(status, xsize);
    let out = concat(move_bottom(ysize), status_bg());
    concat(out, sized)
}

/// `status_line` where the status's escape codes can be cut out of it, and
/// `None` where one of them would split a character.
pub fn try_status_line(xsize: usize, ysize: u16, status: &str) -> (r: Option<String>)
    ensures
        match r {
            Some(s) => ansi_cuttable(status@) && s@ == goto_code(1, ysize) + bg_code(12) + sized_text(
                status@,
                xsize as int,
            ),
            None => !ansi_cuttable(status@),
        },
{
    match try_sized_string_u(status, xsize) {
        Some(_) => Some(status_line(xsize, ysize, status)),
        None => None,
    }
}

/// The coordinates a widget at `c` slides in with: ten frames, its top
/// row moving up from nine rows below to its own, its height growing to
/// its own.
pub open spec fn slide_frame(c: Coordinates, i: int) -> Coordinates {
    Coordinates {
        size: Size((c.size.0.0, (c.size.0.1 - i) as u16)),
        position: Position((c.position.0.0, (c.position.0.1 + i) as u16)),
    }
}

/// The frames of sliding in, from the lowest to the widget's own place.
pub fn slide_frames(c: &Coordinates) -> (r: Vec<Coordinates>)
    requires
        c.size.0.1 >= 9,
        c.position.0.1 + 9 <= u16::MAX,
    ensures
        r@.len() == 10,
        forall|k: int| 0 <= k < 10 ==> #[trigger] r@[k] == slide_frame(*c, 9 - k),
{
    let mut r: Vec<Coordinates> = Vec::new();
    let mut i: u16 = 10;
    while i > 0
        invariant
            i <= 10,
            r@.len() == 10 - i,
            c.size.0.1 >= 9,
            c.position.0.1 + 9 <= u16::MAX,
            forall|k: int| 0 <= k < r@.len() ==> #[trigger] r@[k] == slide_frame(*c, 9 - k),
        decreases i,
    {
        i = i - 1;
        r.push(
            Coordinates {
                size: Size((c.size.0.0, c.size.0.1 - i)),
                position: Position((c.position.0.0, c.position.0.1 + i)),
            },
        );
    }
    r
}

/// A full-screen widget's coordinates after the terminal was resized to
/// `xsize` by `ysize` (counted from zero): two rows are left for the header
/// and the footer.
pub fn resized(c: &Coordinates, xsize: usize, ysize: usize) -> (r: Coordinates)
    requires
        ysize >= 2,
        xsize < usize::MAX,
    ensures
        r.size.0 == ((xsize + 1) as u16, (ysize - 1) as u16),
        r.position == c.position,
{
    let mut coords = *c;
    coords.set_size_u(xsize, ysize - 2);
    coords
}

/// A list's rendered `lines` drawn from its top row down: each reset to the
/// normal color, the one at the cursor `selection` (counted from the top of
/// the list, the first line being line `offset`) inverted.
pub open spec fn list_rows(c: Coordinates, lines: Seq<Seq<char>>, offset: int, selection: int) -> Seq<char>
    decreases lines.len(),
{
    if lines.len() == 0 {
        Seq::empty()
    } else {
        let i = lines.len() - 1;
        let mark = if i + offset == selection {
            "\x1b[7m"@
        } else {
            Seq::empty()
        };
        list_rows(c, lines.drop_last(), offset, selection) + fg_code(7) + mark + goto_code(
            c.position.0.0,
            (i + c.position.0.1) as u16,
        ) + lines.last() + "\x1b[m"@
    }
}

/// What draws a list: a reset, its rendered `lines` with the cursor's line
/// inverted, and the rows below its `len` lines blanked.
pub fn list_drawlist(c: &Coordinates, lines: &Vec<String>, offset: usize, selection: usize, len: usize) -> (r: String)
    requires
        c.position.0.0 >= 1,
        lines@.len() + c.position.0.1 <= u16::MAX,
        len + c.position.0.1 <= u16::MAX,
    ensures
        r@ == "\x1b[m"@ + list_rows(
            *c,
            lines@.map_values(|l: String| l@),
            offset as int,
            selection as int,
        ) + blank_rows(
            Seq::empty(),
            c.position.0.0,
            len + c.position.0.1,
            c.size.0.1 + 2,
            c.size.0.0 as nat,
        ),
{
    let (xpos, ypos) = c.position.0;
    let ghost ls = lines@.map_values(|l: String| l@);
    let mut out = reset();
    let mut i: usize = 0;
    while i < lines.len()
        invariant
            i <= lines@.len(),
            ls == lines@.map_values(|l: String| l@),
            xpos == c.position.0.0,
            ypos == c.position.0.1,
            xpos >= 1,
            lines@.len() + ypos <= u16::MAX,
            out@ == "\x1b[m"@ + list_rows(*c, ls.take(i as int), offset as int, selection as int),
        decreases lines.len() - i,
    {
        let ghost before = out@;
        out = concat(out, normal_color());
        if i <= usize::MAX - offset && i + offset == selection {
            out = concat(out, invert());
        }
        out = concat(out, goto_xy(xpos, i as u16 + ypos));
        out = concat(out, lines[i].clone());
        out = concat(out, reset());
        proof {
            assert(ls.take(i + 1).drop_last() =~= ls.take(i as int));
            assert(ls.take(i + 1).last() == lines@[i as int]@);
            let mark = if i + offset == selection {
                "\x1b[7m"@
            } else {
                Seq::<char>::empty()
            };
            assert(out@ =~= before + fg_code(7) + mark + goto_code(xpos, (i + ypos) as u16)
                + lines@[i as int]@ + "\x1b[m"@);
        }
        i += 1;
    }
    assert(ls.take(i as int) =~= ls);
    let rest = redraw_empty_list(c, len);
    concat(out, rest)
}

} // verus!
