//! A scrolling list: a selected line and the first line shown (the offset),
//! moved up and down, by pages, to the top and to the bottom, so that the
//! selection stays in view.
use vstd::prelude::*;
use crate::actions::Movement;
use crate::coordinates::Coordinates;

verus! {

/// Content that a list shows, line by line.
pub trait Listable {
    /// The number of lines.
    spec fn len_spec(&self) -> nat;

    fn len(&self) -> (r: usize)
        ensures
            r == self.len_spec(),
    ;
}

/// A list of lines with a selection, scrolled by `offset` lines.
pub struct ListView<T> {
    pub content: T,
    pub selection: usize,
    pub offset: usize,
    pub coordinates: Coordinates,
    pub seeking: bool,
    pub searching: Option<String>,
}

/// Selection and offset after one step up.
pub open spec fn up(sel: usize, off: usize) -> (usize, usize) {
    if sel == 0 {
        (sel, off)
    } else if sel <= off {
        ((sel - 1) as usize, (off - 1) as usize)
    } else {
        ((sel - 1) as usize, off)
    }
}

/// Whether a step up can be taken without the list panicking.
pub open spec fn up_ok(sel: usize, off: usize) -> bool {
    sel == 0 || off <= sel
}

/// Whether the selection is at the end of `lines` lines (or there are none).
pub open spec fn at_end(sel: usize, lines: usize) -> bool {
    lines == 0 || sel == lines - 1
}

/// Whether a step down scrolls the view.
pub open spec fn scrolls_down(sel: usize, off: usize, ysize: int) -> bool {
    sel + 1 >= ysize && sel + 1 - off >= ysize
}

/// Selection and offset after one step down in `lines` lines, `ysize` of
/// them shown.
pub open spec fn down(sel: usize, off: usize, lines: usize, ysize: int) -> (usize, usize) {
    if at_end(sel, lines) {
        (sel, off)
    } else if scrolls_down(sel, off, ysize) {
        ((sel + 1) as usize, (off + 1) as usize)
    } else {
        ((sel + 1) as usize, off)
    }
}

/// Whether a step down can be taken without the list panicking.
pub open spec fn down_ok(sel: usize, off: usize, lines: usize, ysize: int) -> bool {
    at_end(sel, lines) || (sel < usize::MAX && (sel + 1 >= ysize ==> off <= sel + 1) && (
    scrolls_down(sel, off, ysize) ==> off < usize::MAX))
}

/// Selection and offset after `n` steps up.
pub open spec fn ups(sel: usize, off: usize, n: nat) -> (usize, usize)
    decreases n,
{
    if n == 0 {
        (sel, off)
    } else {
        let (s, o) = ups(sel, off, (n - 1) as nat);
        up(s, o)
    }
}

pub open spec fn ups_ok(sel: usize, off: usize, n: nat) -> bool
    decreases n,
{
    if n == 0 {
        true
    } else {
        let (s, o) = ups(sel, off, (n - 1) as nat);
        ups_ok(sel, off, (n - 1) as nat) && up_ok(s, o)
    }
}

/// Selection and offset after `n` steps down.
pub open spec fn downs(sel: usize, off: usize, lines: usize, ysize: int, n: nat) -> (usize, usize)
    decreases n,
{
    if n == 0 {
        (sel, off)
    } else {
        let (s, o) = downs(sel, off, lines, ysize, (n - 1) as nat);
        down(s, o, lines, ysize)
    }
}

pub open spec fn downs_ok(sel: usize, off: usize, lines: usize, ysize: int, n: nat) -> bool
    decreases n,
{
    if n == 0 {
        true
    } else {
        let (s, o) = downs(sel, off, lines, ysize, (n - 1) as nat);
        downs_ok(sel, off, lines, ysize, (n - 1) as nat) && down_ok(s, o, lines, ysize)
    }
}

/// The offset that shows line `position` in a view of `ysize` lines: the
/// smallest with `position < ysize + offset`.
pub open spec fn offset_for(position: int, ysize: int) -> int {
    if position >= ysize {
        position - ysize + 1
    } else {
        0
    }
}

/// Whether the selection is in view: at or after the offset and within
/// `ysize` lines of it.
pub open spec fn in_view(sel: int, off: int, ysize: int) -> bool {
    off <= sel < off + ysize
}

impl<T: Listable> ListView<T> {
    /// A list over `content` at `coordinates`, the first line selected.
    pub fn new(coordinates: Coordinates, content: T) -> (r: ListView<T>)
        ensures
            r.content == content,
            r.selection == 0,
            r.offset == 0,
            r.coordinates == coordinates,
            !r.seeking,
            r.searching is None,
    {
        ListView { content, selection: 0, offset: 0, coordinates, seeking: false, searching: None }
    }

    pub fn len(&self) -> (r: usize)
        ensures
            r == self.content.len_spec(),
    {
        self.content.len()
    }

    /// Height of the view.
    pub open spec fn ysize_spec(&self) -> int {
        self.coordinates.size.0.1 as int
    }

    /// Moves the selection up one line, scrolling when it leaves the view.
    pub fn move_up(&mut self)
        requires
            up_ok(old(self).selection, old(self).offset),
        ensures
            (final(self).selection, final(self).offset) == up(old(self).selection, old(self).offset),
            final(self).seeking == (old(self).seeking && old(self).selection == 0),
            final(self).content == old(self).content,
            final(self).coordinates == old(self).coordinates,
            final(self).searching == old(self).searching,
    {
        if self.selection == 0 {
            return;
        }
        if self.selection - self.offset <= 0 {
            self.offset = self.offset - 1;
        }
        self.selection = self.selection - 1;
        self.seeking = false;
    }

    /// Moves the selection down one line unless it is on the last one,
    /// scrolling when it leaves the view.
    pub fn move_down(&mut self)
        requires
            down_ok(
                old(self).selection,
                old(self).offset,
                old(self).content.len_spec() as usize,
                old(self).ysize_spec(),
            ),
            old(self).content.len_spec() <= usize::MAX,
        ensures
            (final(self).selection, final(self).offset) == down(
                old(self).selection,
                old(self).offset,
                old(self).content.len_spec() as usize,
                old(self).ysize_spec(),
            ),
            final(self).seeking == (old(self).seeking && at_end(
                old(self).selection,
                old(self).content.len_spec() as usize,
            )),
            final(self).content == old(self).content,
            final(self).coordinates == old(self).coordinates,
            final(self).searching == old(self).searching,
    {
        let lines = self.len();
        let y_size = self.coordinates.ysize() as usize;
        if lines == 0 || self.selection == lines - 1 {
            return;
        }
        if self.selection + 1 >= y_size && self.selection + 1 - self.offset >= y_size {
            self.offset = self.offset + 1;
        }
        self.selection = self.selection + 1;
        self.seeking = false;
    }

    /// Selects line `position`, scrolled so that it is the last line in view
    /// (or not scrolled when it is in the first screen).
    pub fn set_selection(&mut self, position: usize)
        requires
            position + 1 < usize::MAX,
        ensures
            final(self).selection == position,
            final(self).offset == offset_for(position as int, old(self).ysize_spec()),
            final(self).content == old(self).content,
            final(self).coordinates == old(self).coordinates,
            final(self).seeking == old(self).seeking,
            final(self).searching == old(self).searching,
    {
        let ysize = self.coordinates.ysize() as usize;
        let mut offset: usize = 0;
        while position >= ysize + offset
            invariant
                offset <= offset_for(position as int, ysize as int),
                position + 1 < usize::MAX,
            decreases position + 1 - offset,
        {
            offset = offset + 1;
        }
        self.offset = offset;
        self.selection = position;
    }

    pub fn get_selection(&self) -> (r: usize)
        ensures
            r == self.selection,
    {
        self.selection
    }

    /// Selects the first line.
    pub fn move_top(&mut self)
        ensures
            final(self).selection == 0,
            final(self).offset == offset_for(0, old(self).ysize_spec()),
            final(self).content == old(self).content,
            final(self).coordinates == old(self).coordinates,
    {
        self.set_selection(0);
    }

    /// Selects the last line.
    pub fn move_bottom(&mut self)
        requires
            old(self).content.len_spec() > 0,
            old(self).content.len_spec() < usize::MAX,
        ensures
            final(self).selection == old(self).content.len_spec() - 1,
            final(self).offset == offset_for(
                old(self).content.len_spec() - 1,
                old(self).ysize_spec(),
            ),
            final(self).content == old(self).content,
            final(self).coordinates == old(self).coordinates,
    {
        let lines = self.len();
        self.set_selection(lines - 1);
    }

    /// Moves up by one screen less one line.
    pub fn page_up(&mut self)
        requires
            old(self).ysize_spec() >= 1,
            ups_ok(old(self).selection, old(self).offset, (old(self).ysize_spec() - 1) as nat),
        ensures
            (final(self).selection, final(self).offset) == ups(
                old(self).selection,
                old(self).offset,
                (old(self).ysize_spec() - 1) as nat,
            ),
            final(self).content == old(self).content,
            final(self).coordinates == old(self).coordinates,
    {
        let ysize = self.coordinates.ysize_u();
        let ghost s0 = self.selection;
        let ghost o0 = self.offset;
        let mut i: usize = 0;
        while i < ysize
            invariant
                i <= ysize,
                ysize == old(self).ysize_spec() - 1,
                ups_ok(s0, o0, ysize as nat),
                (self.selection, self.offset) == ups(s0, o0, i as nat),
                self.content == old(self).content,
                self.coordinates == old(self).coordinates,
            decreases ysize - i,
        {
            proof {
                lemma_ups_ok_prefix(s0, o0, ysize as nat, (i + 1) as nat);
            }
            self.move_up();
            i += 1;
        }
    }

    /// Moves down by one screen less one line.
    pub fn page_down(&mut self)
        requires
            old(self).ysize_spec() >= 1,
            old(self).content.len_spec() <= usize::MAX,
            downs_ok(
                old(self).selection,
                old(self).offset,
                old(self).content.len_spec() as usize,
                old(self).ysize_spec(),
                (old(self).ysize_spec() - 1) as nat,
            ),
        ensures
            (final(self).selection, final(self).offset) == downs(
                old(self).selection,
                old(self).offset,
                old(self).content.len_spec() as usize,
                old(self).ysize_spec(),
                (old(self).ysize_spec() - 1) as nat,
            ),
            final(self).content == old(self).content,
            final(self).coordinates == old(self).coordinates,
    {
        let ysize = self.coordinates.ysize_u();
        let ghost s0 = self.selection;
        let ghost o0 = self.offset;
        let ghost lines = self.content.len_spec() as usize;
        let ghost ys = self.ysize_spec();
        let mut i: usize = 0;
        while i < ysize
            invariant
                i <= ysize,
                ysize == ys - 1,
                ys == self.ysize_spec(),
                lines == self.content.len_spec(),
                self.content.len_spec() <= usize::MAX,
                downs_ok(s0, o0, lines, ys, ysize as nat),
                (self.selection, self.offset) == downs(s0, o0, lines, ys, i as nat),
                self.content == old(self).content,
                self.coordinates == old(self).coordinates,
            decreases ysize - i,
        {
            proof {
                lemma_downs_ok_prefix(s0, o0, lines, ys, ysize as nat, (i + 1) as nat);
            }
            self.move_down();
            i += 1;
        }
    }

    /// After the content changed: a selection past the end goes to the last line.
    pub fn refresh(&mut self)
        ensures
            final(self).selection == if old(self).selection >= old(self).content.len_spec()
                && old(self).content.len_spec() != 0 {
                (old(self).content.len_spec() - 1) as usize
            } else {
                old(self).selection
            },
            final(self).offset == old(self).offset,
            final(self).content == old(self).content,
            final(self).coordinates == old(self).coordinates,
            final(self).seeking == old(self).seeking,
            final(self).searching == old(self).searching,
    {
        let len = self.len();
        if self.selection >= len && len != 0 {
            self.selection = len - 1;
        }
    }

    /// Moves up or down `n` lines, a page, or to the top or the bottom; left
    /// and right do nothing here.
    pub fn movement(&mut self, movement: &Movement)
        requires
            old(self).ysize_spec() >= 1,
            old(self).content.len_spec() < usize::MAX,
            old(self).offset <= old(self).selection,
            old(self).selection < old(self).content.len_spec(),
        ensures
            final(self).content == old(self).content,
            final(self).coordinates == old(self).coordinates,
            match *movement {
                Movement::Up(n) => (final(self).selection, final(self).offset) == ups(
                    old(self).selection,
                    old(self).offset,
                    n as nat,
                ),
                Movement::Down(n) => (final(self).selection, final(self).offset) == downs(
                    old(self).selection,
                    old(self).offset,
                    old(self).content.len_spec() as usize,
                    old(self).ysize_spec(),
                    n as nat,
                ),
                Movement::PageUp => (final(self).selection, final(self).offset) == ups(
                    old(self).selection,
                    old(self).offset,
                    (old(self).ysize_spec() - 1) as nat,
                ),
                Movement::PageDown => (final(self).selection, final(self).offset) == downs(
                    old(self).selection,
                    old(self).offset,
                    old(self).content.len_spec() as usize,
                    old(self).ysize_spec(),
                    (old(self).ysize_spec() - 1) as nat,
                ),
                Movement::Top => final(self).selection == 0 && final(self).offset == 0,
                Movement::Bottom => final(self).selection == old(self).content.len_spec() - 1,
                Movement::Left | Movement::Right => final(self).selection == old(self).selection
                    && final(self).offset == old(self).offset,
            },
    {
        proof {
            let s = self.selection;
            let o = self.offset;
            let l = self.content.len_spec() as usize;
            let y = self.ysize_spec();
            lemma_ups_safe(s, o, (y - 1) as nat);
            lemma_downs_safe(s, o, l, y, (y - 1) as nat);
        }
        match movement {
            Movement::Up(n) => {
                let n = *n;
                let ghost s0 = self.selection;
                let ghost o0 = self.offset;
                proof {
                    lemma_ups_safe(s0, o0, n as nat);
                }
                let mut i: usize = 0;
                while i < n
                    invariant
                        i <= n,
                        ups_ok(s0, o0, n as nat),
                        (self.selection, self.offset) == ups(s0, o0, i as nat),
                        self.content == old(self).content,
                        self.coordinates == old(self).coordinates,
                    decreases n - i,
                {
                    proof {
                        lemma_ups_ok_prefix(s0, o0, n as nat, (i + 1) as nat);
                    }
                    self.move_up();
                    i += 1;
                }
            },
            Movement::Down(n) => {
                let n = *n;
                let ghost s0 = self.selection;
                let ghost o0 = self.offset;
                let ghost lines = self.content.len_spec() as usize;
                let ghost ys = self.ysize_spec();
                proof {
                    lemma_downs_safe(s0, o0, lines, ys, n as nat);
                }
                let mut i: usize = 0;
                while i < n
                    invariant
                        i <= n,
                        ys == self.ysize_spec(),
                        lines == self.content.len_spec(),
                        self.content.len_spec() <= usize::MAX,
                        downs_ok(s0, o0, lines, ys, n as nat),
                        (self.selection, self.offset) == downs(s0, o0, lines, ys, i as nat),
                        self.content == old(self).content,
                        self.coordinates == old(self).coordinates,
                    decreases n - i,
                {
                    proof {
                        lemma_downs_ok_prefix(s0, o0, lines, ys, n as nat, (i + 1) as nat);
                    }
                    self.move_down();
                    i += 1;
                }
            },
            Movement::PageUp => self.page_up(),
            Movement::PageDown => self.page_down(),
            Movement::Top => self.move_top(),
            Movement::Bottom => self.move_bottom(),
            Movement::Left | Movement::Right => {},
        }
    }
}

pub proof fn lemma_ups_ok_prefix(sel: usize, off: usize, n: nat, k: nat)
    requires
        k <= n,
        ups_ok(sel, off, n),
    ensures
        ups_ok(sel, off, k),
    decreases n - k,
{
    if k < n {
        lemma_ups_ok_prefix(sel, off, (n - 1) as nat, k);
    }
}

pub proof fn lemma_downs_ok_prefix(sel: usize, off: usize, lines: usize, ysize: int, n: nat, k: nat)
    requires
        k <= n,
        downs_ok(sel, off, lines, ysize, n),
    ensures
        downs_ok(sel, off, lines, ysize, k),
    decreases n - k,
{
    if k < n {
        lemma_downs_ok_prefix(sel, off, lines, ysize, (n - 1) as nat, k);
    }
}

/// From a state with the offset at or before the selection, any number of
/// steps up is safe and keeps the offset at or before the selection.
pub proof fn lemma_ups_safe(sel: usize, off: usize, n: nat)
    requires
        off <= sel,
    ensures
        ups_ok(sel, off, n),
        ups(sel, off, n).1 <= ups(sel, off, n).0,
    decreases n,
{
    if n > 0 {
        lemma_ups_safe(sel, off, (n - 1) as nat);
    }
}

/// From a state with the offset at or before the selection and the
/// selection on a line of the list, any number of steps down is safe and
/// keeps both.
pub proof fn lemma_downs_safe(sel: usize, off: usize, lines: usize, ysize: int, n: nat)
    requires
        off <= sel,
        sel < lines,
    ensures
        downs_ok(sel, off, lines, ysize, n),
        downs(sel, off, lines, ysize, n).1 <= downs(sel, off, lines, ysize, n).0,
        downs(sel, off, lines, ysize, n).0 < lines,
    decreases n,
{
    if n > 0 {
        lemma_downs_safe(sel, off, lines, ysize, (n - 1) as nat);
    }
}

/// A step up or down keeps a selection that is in view in view, and keeps
/// it on a line of the list.
pub proof fn lemma_steps_keep_view(sel: usize, off: usize, lines: usize, ysize: int)
    requires
        ysize >= 1,
        in_view(sel as int, off as int, ysize),
        sel < lines,
    ensures
        in_view(up(sel, off).0 as int, up(sel, off).1 as int, ysize),
        in_view(down(sel, off, lines, ysize).0 as int, down(sel, off, lines, ysize).1 as int, ysize),
        down(sel, off, lines, ysize).0 < lines,
        up(sel, off).0 < lines,
{
}

/// Selecting a line puts it in view when the view has room.
pub proof fn lemma_set_selection_in_view(position: int, ysize: int)
    requires
        position >= 0,
        ysize >= 1,
    ensures
        in_view(position, offset_for(position, ysize), ysize),
{
}

} // verus!
