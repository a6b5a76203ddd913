//! A scrolling text: lines shown from an offset, scrolled by lines and pages
//! without going past the last screen, and following the end as text comes.
use vstd::prelude::*;
use crate::actions::Movement;
use crate::coordinates::Coordinates;
use crate::dirty::{DirtyBit, Dirtyable};
use crate::foldview::{split_lines, strings_of};
use crate::text::{chars_to_string, lines};
use crate::term::{ansi_cuttable, decimal, goto_code, goto_xy, goto_xy_u, push_decimal, reset, sized_string_u, sized_text};

verus! {

/// Lines of text shown from `offset` on.
pub struct TextView {
    pub lines: Vec<String>,
    pub follow: bool,
    pub offset: usize,
    pub coordinates: Coordinates,
    pub limited: bool,
    pub dirty: DirtyBit,
}

/// The offset after scrolling by `amount` lines, `len` lines in all and
/// `ysize` of them shown: nothing moves while the text fits from the offset
/// on; scrolling down stops where the last line is one above the bottom,
/// scrolling up stops at the top.
pub open spec fn scrolled(offset: int, amount: int, len: int, ysize: int) -> int {
    if len <= ysize + offset {
        offset
    } else if amount > 0 {
        if ysize + amount + offset + 1 >= len {
            len - ysize - 1
        } else {
            offset + amount
        }
    } else if amount < 0 {
        if offset + amount >= 0 {
            offset + amount
        } else {
            0
        }
    } else {
        offset
    }
}

/// Whether scrolling by `amount` stays within `isize` on the way.
pub open spec fn scroll_fits(offset: int, amount: int, len: int, ysize: int) -> bool {
    &&& offset + ysize <= isize::MAX
    &&& len <= isize::MAX
    &&& (amount > 0 ==> ysize + amount + offset + 1 <= isize::MAX)
}

impl TextView {
    /// No text, at the top.
    pub fn new_blank(coordinates: Coordinates) -> (r: TextView)
        ensures
            r.lines@.len() == 0,
            !r.follow,
            r.offset == 0,
            r.coordinates == coordinates,
            !r.limited,
            !r.dirty.0,
    {
        TextView {
            lines: Vec::new(),
            follow: false,
            offset: 0,
            coordinates,
            limited: false,
            dirty: DirtyBit::new(),
        }
    }

    pub open spec fn ysize_spec(&self) -> int {
        self.coordinates.size.0.1 as int
    }

    /// Scrolls by `amount` lines (up where negative).
    pub fn scroll(&mut self, amount: isize)
        requires
            scroll_fits(
                old(self).offset as int,
                amount as int,
                old(self).lines@.len() as int,
                old(self).ysize_spec(),
            ),
        ensures
            final(self).offset == scrolled(
                old(self).offset as int,
                amount as int,
                old(self).lines@.len() as int,
                old(self).ysize_spec(),
            ),
            final(self).dirty.0 == (old(self).dirty.0 || final(self).offset != old(self).offset),
            final(self).lines == old(self).lines,
            final(self).coordinates == old(self).coordinates,
            final(self).follow == old(self).follow,
            final(self).limited == old(self).limited,
    {
        let ysize = self.coordinates.ysize() as isize;
        let offset = self.offset as isize;
        let len = self.lines.len() as isize;
        if len <= ysize + offset {
            return;
        }
        if amount > 0 {
            if ysize + amount + offset + 1 >= len {
                self.offset = (len - ysize - 1) as usize;
            } else {
                self.offset = (offset + amount) as usize;
            }
        } else if amount < 0 {
            if offset + amount >= 0 {
                self.offset = (offset + amount) as usize;
            } else {
                self.offset = 0;
            }
        }
        if offset != self.offset as isize {
            self.dirty.set_dirty();
        }
    }

    pub fn scroll_up(&mut self)
        requires
            old(self).offset + old(self).ysize_spec() <= isize::MAX,
            old(self).lines@.len() <= isize::MAX,
        ensures
            final(self).offset == scrolled(
                old(self).offset as int,
                -1,
                old(self).lines@.len() as int,
                old(self).ysize_spec(),
            ),
            final(self).lines == old(self).lines,
            final(self).coordinates == old(self).coordinates,
            final(self).follow == old(self).follow,
            final(self).limited == old(self).limited,
    {
        self.scroll(-1);
    }

    pub fn scroll_down(&mut self)
        requires
            old(self).offset + old(self).ysize_spec() + 2 <= isize::MAX,
            old(self).lines@.len() <= isize::MAX,
        ensures
            final(self).offset == scrolled(
                old(self).offset as int,
                1,
                old(self).lines@.len() as int,
                old(self).ysize_spec(),
            ),
            final(self).lines == old(self).lines,
            final(self).coordinates == old(self).coordinates,
            final(self).follow == old(self).follow,
            final(self).limited == old(self).limited,
    {
        self.scroll(1);
    }

    /// Scrolls up by a screen less one line.
    pub fn page_up(&mut self)
        requires
            old(self).offset + old(self).ysize_spec() + 2 <= isize::MAX,
            old(self).lines@.len() <= isize::MAX,
        ensures
            final(self).offset == scrolled(
                old(self).offset as int,
                1 - old(self).ysize_spec(),
                old(self).lines@.len() as int,
                old(self).ysize_spec(),
            ),
            final(self).lines == old(self).lines,
            final(self).coordinates == old(self).coordinates,
            final(self).follow == old(self).follow,
            final(self).limited == old(self).limited,
    {
        let ysize = self.coordinates.ysize() as isize;
        self.scroll(0 - ysize + 1);
    }

    /// Scrolls down by a screen less one line.
    pub fn page_down(&mut self)
        requires
            old(self).offset + 2 * old(self).ysize_spec() <= isize::MAX,
            old(self).lines@.len() <= isize::MAX,
        ensures
            final(self).offset == scrolled(
                old(self).offset as int,
                old(self).ysize_spec() - 1,
                old(self).lines@.len() as int,
                old(self).ysize_spec(),
            ),
            final(self).lines == old(self).lines,
            final(self).coordinates == old(self).coordinates,
            final(self).follow == old(self).follow,
            final(self).limited == old(self).limited,
    {
        let ysize = self.coordinates.ysize() as isize;
        self.scroll(ysize - 1);
    }

    pub fn scroll_top(&mut self)
        ensures
            final(self).offset == 0,
            final(self).lines == old(self).lines,
            final(self).coordinates == old(self).coordinates,
            final(self).follow == old(self).follow,
            final(self).limited == old(self).limited,
    {
        self.offset = 0;
    }

    /// Scrolls down as far as it goes.
    pub fn scroll_bottom(&mut self)
        requires
            old(self).offset + old(self).ysize_spec() + 2 * old(self).lines@.len() + 1 <= isize::MAX,
        ensures
            final(self).offset == scrolled(
                old(self).offset as int,
                old(self).lines@.len() as int,
                old(self).lines@.len() as int,
                old(self).ysize_spec(),
            ),
            final(self).lines == old(self).lines,
            final(self).coordinates == old(self).coordinates,
            final(self).follow == old(self).follow,
            final(self).limited == old(self).limited,
    {
        let len = self.lines.len() as isize;
        self.scroll(len);
    }

    /// The text of a file read so far: the lines up to index `num` (all of
    /// them where `num` is zero), marked as limited.
    pub fn from_lines(coordinates: Coordinates, lines: Vec<String>, num: usize) -> (r: TextView)
        ensures
            r.lines@ == (if num == 0 || lines@.len() <= num {
                lines@
            } else {
                lines@.take(num + 1)
            }),
            r.limited,
            !r.follow,
            r.offset == 0,
            r.coordinates == coordinates,
    {
        let mut kept = lines;
        if num != 0 && kept.len() > num {
            kept.truncate(num + 1);
        }
        TextView {
            lines: kept,
            follow: false,
            offset: 0,
            coordinates,
            limited: true,
            dirty: DirtyBit::new(),
        }
    }

    /// What the view draws: after a reset, each line shown on its row,
    /// fitted to the width less one.
    pub fn get_drawlist(&self) -> (r: String)
        requires
            self.coordinates.size.0.0 >= 1,
            self.coordinates.position.0.0 >= 1,
            self.coordinates.position.0.1 + self.coordinates.size.0.1 <= u16::MAX,
            forall|i: int| 0 <= i < self.lines@.len() ==> ansi_cuttable(#[trigger] self.lines@[i]@),
        ensures
            r@ == "\x1b[m"@ + draw_lines(
                shown_lines(
                    self.lines@.map_values(|l: String| l@),
                    self.offset as int,
                    self.ysize_spec(),
                ),
                self.coordinates.position.0.0,
                self.coordinates.position.0.1,
                self.coordinates.size.0.0 as int,
            ),
    {
        let xsize = self.coordinates.size.0.0;
        let ysize = self.coordinates.size.0.1;
        let (xpos, ypos) = self.coordinates.position.0;
        let ghost all = self.lines@.map_values(|l: String| l@);
        let ghost shown = shown_lines(all, self.offset as int, ysize as int);
        let mut out = reset();
        let n = self.lines.len();
        if self.offset >= n {
            assert(shown =~= Seq::<Seq<char>>::empty());
            return out;
        }
        let end: usize = if n - self.offset <= ysize as usize {
            n
        } else {
            self.offset + ysize as usize
        };
        assert(shown =~= all.subrange(self.offset as int, end as int));
        assert(all.subrange(self.offset as int, self.offset as int) =~= Seq::<Seq<char>>::empty());
        let mut i: usize = self.offset;
        while i < end
            invariant
                self.offset <= i,
                i <= end,
                end <= n,
                n == self.lines@.len(),
                all == self.lines@.map_values(|l: String| l@),
                end - self.offset <= ysize,
                shown == all.subrange(self.offset as int, end as int),
                xsize == self.coordinates.size.0.0,
                xsize >= 1,
                ypos + ysize <= u16::MAX,
                xpos >= 1,
                forall|k: int| 0 <= k < self.lines@.len() ==> ansi_cuttable(#[trigger] self.lines@[k]@),
                out@ == "\x1b[m"@ + draw_lines(
                    all.subrange(self.offset as int, i as int),
                    xpos,
                    ypos,
                    xsize as int,
                ),
            decreases end - i,
        {
            let row = ((i - self.offset) as u16) + ypos;
            let g = goto_xy(xpos, row);
            let line = sized_string_u(self.lines[i].as_str(), (xsize - 1) as usize);
            let ghost prev = out@;
            out = crate::term::concat(out, g);
            out = crate::term::concat(out, line);
            proof {
                let sub = all.subrange(self.offset as int, i + 1);
                assert(sub.drop_last() =~= all.subrange(self.offset as int, i as int));
                assert(sub.last() == self.lines@[i as int]@);
                assert(sub.len() == i + 1 - self.offset);
            }
            assert(out@ =~= "\x1b[m"@ + draw_lines(
                all.subrange(self.offset as int, i + 1),
                xpos,
                ypos,
                xsize as int,
            ));
            i += 1;
        }
        out
    }

    /// The footer: where the view is in the text, at the bottom right.
    pub fn render_footer(&self) -> (r: String)
        requires
            self.coordinates.size.0.0 >= 1,
            self.coordinates.size.0.1 >= 1,
            self.coordinates.position.0.1 >= 1,
            self.offset + self.coordinates.size.0.1 + 1 <= usize::MAX,
            line_hint(
                self.offset as nat,
                self.lines@.len(),
                (self.coordinates.size.0.1 - 1) as nat,
            ).len() <= self.coordinates.size.0.0 - 1,
            ({
                let hint_x = self.coordinates.size.0.0 - 1 - line_hint(
                    self.offset as nat,
                    self.lines@.len(),
                    (self.coordinates.size.0.1 - 1) as nat,
                ).len();
                let hint_y = self.coordinates.size.0.1 - 1 + self.coordinates.position.0.1 - 1 + 1;
                !((hint_x + 1) as u16 == 0 && (hint_y + 1) as u16 == 0)
            }),
        ensures
            ({
                let hint = line_hint(
                    self.offset as nat,
                    self.lines@.len(),
                    (self.coordinates.size.0.1 - 1) as nat,
                );
                let hint_x = self.coordinates.size.0.0 - 1 - hint.len();
                let hint_y = self.coordinates.size.0.1 - 1 + self.coordinates.position.0.1 - 1 + 1;
                r@ == goto_code((hint_x + 1) as u16, (hint_y + 1) as u16) + hint
            }),
    {
        let (xsize, ysize) = self.coordinates.size_u();
        let (_, ypos) = (
            (self.coordinates.position.0.0 as usize),
            (self.coordinates.position.0.1 - 1) as usize,
        );
        let n = self.lines.len();
        let last = if n == 0 {
            0
        } else {
            n - 1
        };
        let top = self.offset;
        let bot = if top + ysize + 1 < last {
            top + ysize + 1
        } else {
            last
        };
        let mut hint: Vec<char> = Vec::new();
        push_decimal(&mut hint, top);
        hint.push(' ');
        hint.push('-');
        hint.push(' ');
        push_decimal(&mut hint, bot);
        hint.push(' ');
        hint.push('/');
        hint.push(' ');
        push_decimal(&mut hint, last);
        proof {
            reveal_strlit(" - ");
            reveal_strlit(" / ");
        }
        assert(hint@ =~= line_hint(top as nat, n as nat, ysize as nat));
        let hint_x = xsize - hint.len();
        let hint_y = ysize + ypos + 1;
        let g = goto_xy_u(hint_x, hint_y);
        crate::term::concat(g, chars_to_string(&hint))
    }

    /// Moves by lines (then refreshing), pages or to either end; left and
    /// right do nothing.
    pub fn movement(&mut self, movement: &Movement)
        requires
            old(self).offset + 2 * old(self).ysize_spec() + 3 * old(self).lines@.len() + 2 <= isize::MAX,
        ensures
            final(self).lines == old(self).lines,
            final(self).coordinates == old(self).coordinates,
            match *movement {
                Movement::Left | Movement::Right => final(self).offset == old(self).offset,
                Movement::Top => final(self).offset == 0,
                Movement::Bottom => final(self).offset == scrolled(
                    old(self).offset as int,
                    old(self).lines@.len() as int,
                    old(self).lines@.len() as int,
                    old(self).ysize_spec(),
                ),
                Movement::PageUp => final(self).offset == scrolled(
                    old(self).offset as int,
                    1 - old(self).ysize_spec(),
                    old(self).lines@.len() as int,
                    old(self).ysize_spec(),
                ),
                Movement::PageDown => final(self).offset == scrolled(
                    old(self).offset as int,
                    old(self).ysize_spec() - 1,
                    old(self).lines@.len() as int,
                    old(self).ysize_spec(),
                ),
                Movement::Up(n) => final(self).offset == followed(
                    scrolls(
                        old(self).offset as int,
                        -1,
                        n as nat,
                        old(self).lines@.len() as int,
                        old(self).ysize_spec(),
                    ),
                    old(self).follow,
                    old(self).lines@.len() as int,
                    old(self).ysize_spec(),
                ),
                Movement::Down(n) => final(self).offset == followed(
                    scrolls(
                        old(self).offset as int,
                        1,
                        n as nat,
                        old(self).lines@.len() as int,
                        old(self).ysize_spec(),
                    ),
                    old(self).follow,
                    old(self).lines@.len() as int,
                    old(self).ysize_spec(),
                ),
            },
    {
        let ghost o0 = self.offset as int;
        let ghost len = self.lines@.len() as int;
        let ghost y = self.ysize_spec();
        match *movement {
            Movement::Up(n) => {
                let mut i: usize = 0;
                while i < n
                    invariant
                        i <= n,
                        self.lines == old(self).lines,
                        self.coordinates == old(self).coordinates,
                        self.follow == old(self).follow,
                        len == self.lines@.len(),
                        y == self.ysize_spec(),
                        o0 >= 0,
                        y >= 0,
                        o0 + 2 * y + 3 * len + 2 <= isize::MAX,
                        self.offset == scrolls(o0, -1, i as nat, len, y),
                        self.offset <= o0 || self.offset <= len,
                    decreases n - i,
                {
                    proof {
                        lemma_scroll_bounds(self.offset as int, -1, len, y);
                    }
                    self.scroll_up();
                    i += 1;
                }
                self.refresh();
            },
            Movement::Down(n) => {
                let mut i: usize = 0;
                while i < n
                    invariant
                        i <= n,
                        self.lines == old(self).lines,
                        self.coordinates == old(self).coordinates,
                        self.follow == old(self).follow,
                        len == self.lines@.len(),
                        y == self.ysize_spec(),
                        o0 >= 0,
                        y >= 0,
                        o0 + 2 * y + 3 * len + 2 <= isize::MAX,
                        self.offset == scrolls(o0, 1, i as nat, len, y),
                        self.offset <= o0 || self.offset <= len,
                    decreases n - i,
                {
                    proof {
                        lemma_scroll_bounds(self.offset as int, 1, len, y);
                    }
                    self.scroll_down();
                    i += 1;
                }
                self.refresh();
            },
            Movement::PageUp => self.page_up(),
            Movement::PageDown => self.page_down(),
            Movement::Top => self.scroll_top(),
            Movement::Bottom => self.scroll_bottom(),
            Movement::Left | Movement::Right => {},
        }
    }

    pub fn toggle_follow(&mut self)
        ensures
            final(self).follow == !old(self).follow,
            final(self).offset == old(self).offset,
            final(self).lines == old(self).lines,
    {
        self.follow = !self.follow;
    }

    /// Follows the end of the text when set to, and marks the view clean.
    pub fn refresh(&mut self)
        requires
            old(self).offset + old(self).ysize_spec() + 2 * old(self).lines@.len() + 1 <= isize::MAX,
        ensures
            final(self).offset == if old(self).follow {
                scrolled(
                    old(self).offset as int,
                    old(self).lines@.len() as int,
                    old(self).lines@.len() as int,
                    old(self).ysize_spec(),
                ) as usize
            } else {
                old(self).offset
            },
            !final(self).dirty.0,
            final(self).lines == old(self).lines,
            final(self).limited == old(self).limited,
            final(self).follow == old(self).follow,
            final(self).coordinates == old(self).coordinates,
    {
        if self.follow {
            self.scroll_bottom();
        }
        if self.dirty.is_dirty() {
            self.dirty.set_clean();
        }
    }

    /// Shows the lines of `text`.
    pub fn set_text(&mut self, text: &str)
        requires
            old(self).offset + old(self).ysize_spec() + 2 * lines(text@).len() + 1 <= isize::MAX,
        ensures
            strings_of(final(self).lines@) == lines(text@),
            !final(self).limited,
            !final(self).dirty.0,
    {
        let ls = split_lines(text);
        self.lines = ls;
        self.limited = false;
        self.dirty.set_dirty();
        self.refresh();
    }

    /// Shows the lines `lines`.
    pub fn set_lines(&mut self, lines: Vec<String>)
        requires
            old(self).offset + old(self).ysize_spec() + 2 * lines@.len() + 1 <= isize::MAX,
        ensures
            final(self).lines@ == lines@,
            !final(self).limited,
            !final(self).dirty.0,
    {
        self.lines = lines;
        self.limited = false;
        self.dirty.set_dirty();
        self.refresh();
    }
}

/// The lines shown: those from the offset on, as many as the view is high.
pub open spec fn shown_lines(lines: Seq<Seq<char>>, offset: int, ysize: int) -> Seq<Seq<char>> {
    if offset >= lines.len() {
        Seq::empty()
    } else if offset + ysize >= lines.len() {
        lines.skip(offset)
    } else {
        lines.subrange(offset, offset + ysize)
    }
}

/// The drawing of the lines `ls` from row `ypos` on at column `xpos`, each
/// fitted to `xsize - 1` columns.
pub open spec fn draw_lines(ls: Seq<Seq<char>>, xpos: u16, ypos: u16, xsize: int) -> Seq<char>
    decreases ls.len(),
{
    if ls.len() == 0 {
        Seq::empty()
    } else {
        draw_lines(ls.drop_last(), xpos, ypos, xsize) + goto_code(
            xpos,
            (ypos + ls.len() - 1) as u16,
        ) + sized_text(ls.last(), xsize - 1)
    }
}

/// The footer's hint: the first line shown, the last (at most the last
/// index), and the last index.
pub open spec fn line_hint(offset: nat, len: nat, ysize: nat) -> Seq<char> {
    let last: nat = if len == 0 {
        0
    } else {
        (len - 1) as nat
    };
    let bot: nat = if offset + ysize + 1 < last {
        offset + ysize + 1
    } else {
        last
    };
    decimal(offset) + " - "@ + decimal(bot) + " / "@ + decimal(last)
}

/// The offset after scrolling by `amount` lines `n` times.
pub open spec fn scrolls(offset: int, amount: int, n: nat, len: int, ysize: int) -> int
    decreases n,
{
    if n == 0 {
        offset
    } else {
        scrolled(scrolls(offset, amount, (n - 1) as nat, len, ysize), amount, len, ysize)
    }
}

/// The offset after a refresh: the text's end when following it.
pub open spec fn followed(offset: int, follow: bool, len: int, ysize: int) -> int {
    if follow {
        scrolled(offset, len, len, ysize)
    } else {
        offset
    }
}

/// Scrolling never leaves the text: the offset ends between the top and the
/// larger of where it was and the last screen's.
pub proof fn lemma_scroll_bounds(offset: int, amount: int, len: int, ysize: int)
    requires
        offset >= 0,
        ysize >= 0,
    ensures
        0 <= scrolled(offset, amount, len, ysize),
        scrolled(offset, amount, len, ysize) <= offset || scrolled(offset, amount, len, ysize)
            <= len - ysize - 1,
{
}

/// Scrolling by a number of lines and back by as many returns to the same
/// place while neither move reaches an end.
pub proof fn lemma_scroll_back(offset: int, amount: int, len: int, ysize: int)
    requires
        offset >= 0,
        ysize >= 0,
        amount > 0,
        ysize + amount + offset + 1 < len,
    ensures
        scrolled(scrolled(offset, amount, len, ysize), -amount, len, ysize) == offset,
{
}

} // verus!
