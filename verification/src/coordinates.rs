//! Terminal geometry: sizes and positions of widgets (1-based cells).
use vstd::prelude::*;

verus! {

/// Width and height of a widget in terminal cells.
#[derive(Debug, Clone, Copy, PartialEq, Eq)]
pub struct Size(pub (u16, u16));

/// Column and row of a widget's top left corner (1-based).
#[derive(Debug, Clone, Copy, PartialEq, Eq)]
pub struct Position(pub (u16, u16));

/// Where a widget sits on screen and how large it is.
#[derive(Debug, Clone, Copy, PartialEq, Eq)]
pub struct Coordinates {
    pub size: Size,
    pub position: Position,
}

impl Coordinates {
    /// Full-screen coordinates for a terminal of `xsize` columns and `ysize` rows,
    /// placed at the top left cell (1, 1).
    pub fn new(xsize: u16, ysize: u16) -> (c: Coordinates)
        ensures
            c.size.0 == (xsize, ysize),
            c.position.0 == (1u16, 1u16),
    {
        Coordinates { size: Size((xsize, ysize)), position: Position((1, 1)) }
    }

    pub fn new_at(xsize: u16, ysize: u16, xpos: u16, ypos: u16) -> (c: Coordinates)
        ensures
            c.size.0 == (xsize, ysize),
            c.position.0 == (xpos, ypos),
    {
        Coordinates { size: Size((xsize, ysize)), position: Position((xpos, ypos)) }
    }

    pub fn set_size(&mut self, x: u16, y: u16)
        ensures
            final(self).size.0 == (x, y),
            final(self).position == old(self).position,
    {
        self.size.0 = (x, y);
    }

    /// Sets the size from 0-based extents: the stored size is one more than
    /// each argument, truncated to 16 bits as an `as u16` cast does.
    pub fn set_size_u(&mut self, x: usize, y: usize)
        requires
            x < usize::MAX,
            y < usize::MAX,
        ensures
            final(self).size.0 == ((x + 1) as u16, (y + 1) as u16),
            final(self).position == old(self).position,
    {
        self.size.0 = (#[verifier::truncate] ((x + 1) as u16), #[verifier::truncate] ((y + 1) as u16));
    }

    pub fn set_xsize(&mut self, x: u16)
        ensures
            final(self).size.0 == (x, old(self).size.0.1),
            final(self).position == old(self).position,
    {
        self.size.0.0 = x;
    }

    pub fn set_ysize(&mut self, y: u16)
        ensures
            final(self).size.0 == (old(self).size.0.0, y),
            final(self).position == old(self).position,
    {
        self.size.0.1 = y;
    }

    pub fn set_position(&mut self, x: u16, y: u16)
        ensures
            final(self).position.0 == (x, y),
            final(self).size == old(self).size,
    {
        self.position.0 = (x, y);
    }

    /// Sets the position from 0-based cells: the stored position is one more
    /// than each argument, truncated to 16 bits.
    pub fn set_position_u(&mut self, x: usize, y: usize)
        requires
            x < usize::MAX,
            y < usize::MAX,
        ensures
            final(self).position.0 == ((x + 1) as u16, (y + 1) as u16),
            final(self).size == old(self).size,
    {
        self.position.0 = (#[verifier::truncate] ((x + 1) as u16), #[verifier::truncate] ((y + 1) as u16));
    }

    pub fn set_xpos(&mut self, x: u16)
        ensures
            final(self).position.0 == (x, old(self).position.0.1),
            final(self).size == old(self).size,
    {
        self.position.0.0 = x;
    }

    pub fn set_ypos(&mut self, y: u16)
        ensures
            final(self).position.0 == (old(self).position.0.0, y),
            final(self).size == old(self).size,
    {
        self.position.0.1 = y;
    }

    /// Width as a 0-based extent (width minus one).
    pub fn xsize_u(&self) -> (r: usize)
        requires
            self.size.0.0 >= 1,
            self.size.0.1 >= 1,
        ensures
            r == self.size.0.0 - 1,
    {
        self.size.size_u().0
    }

    pub fn xsize(&self) -> (r: u16)
        ensures
            r == self.size.0.0,
    {
        self.size.xsize()
    }

    /// Height as a 0-based extent (height minus one).
    pub fn ysize_u(&self) -> (r: usize)
        requires
            self.size.0.1 >= 1,
        ensures
            r == self.size.0.1 - 1,
    {
        (self.ysize() - 1) as usize
    }

    pub fn ysize(&self) -> (r: u16)
        ensures
            r == self.size.0.1,
    {
        self.size.ysize()
    }

    pub fn xpos(&self) -> (r: u16)
        ensures
            r == self.position.0.0,
    {
        self.position.position().0
    }

    pub fn ypos(&self) -> (r: u16)
        ensures
            r == self.position.0.1,
    {
        self.position.position().1
    }

    pub fn position(&self) -> (r: &Position)
        ensures
            *r == self.position,
    {
        &self.position
    }

    pub fn u16position(&self) -> (r: (u16, u16))
        ensures
            r == self.position.0,
    {
        self.position.position()
    }

    /// Position as 0-based cells (each coordinate minus one).
    pub fn position_u(&self) -> (r: (usize, usize))
        requires
            self.position.0.0 >= 1,
            self.position.0.1 >= 1,
        ensures
            r.0 == self.position.0.0 - 1,
            r.1 == self.position.0.1 - 1,
    {
        let (xpos, ypos) = self.u16position();
        ((xpos - 1) as usize, (ypos - 1) as usize)
    }

    pub fn size(&self) -> (r: &Size)
        ensures
            *r == self.size,
    {
        &self.size
    }

    pub fn u16size(&self) -> (r: (u16, u16))
        ensures
            r == self.size.0,
    {
        self.size.size()
    }

    /// Size as 0-based extents (each dimension minus one).
    pub fn size_u(&self) -> (r: (usize, usize))
        requires
            self.size.0.0 >= 1,
            self.size.0.1 >= 1,
        ensures
            r.0 == self.size.0.0 - 1,
            r.1 == self.size.0.1 - 1,
    {
        let (xsize, ysize) = self.u16size();
        ((xsize - 1) as usize, (ysize - 1) as usize)
    }

    /// Pixel dimensions of this widget, given the terminal's size in cells
    /// (0-based extents `cols`, `rows`, as the terminal query reports them)
    /// and in pixels: each cell's pixel size times the widget's cell count.
    pub fn size_pixels(&self, cols: usize, rows: usize, xpix: usize, ypix: usize) -> (r: (usize, usize))
        requires
            self.size.0.0 >= 1,
            self.size.0.1 >= 1,
            cols > 0,
            rows > 0,
            (xpix / cols) * self.size.0.0 <= usize::MAX,
            (ypix / rows) * self.size.0.1 <= usize::MAX,
        ensures
            r.0 == (xpix / cols) * self.size.0.0,
            r.1 == (ypix / rows) * self.size.0.1,
    {
        let (xsize, ysize) = self.size_u();
        let (cell_x, cell_y) = (xpix / cols, ypix / rows);
        (cell_x * (xsize + 1), cell_y * (ysize + 1))
    }

    pub fn top(&self) -> (r: Position)
        ensures
            r == self.position,
    {
        self.position().clone()
    }
}

impl Size {
    pub fn size(&self) -> (r: (u16, u16))
        ensures
            r == self.0,
    {
        self.0
    }

    pub fn size_u(&self) -> (r: (usize, usize))
        requires
            self.0.0 >= 1,
            self.0.1 >= 1,
        ensures
            r.0 == self.0.0 - 1,
            r.1 == self.0.1 - 1,
    {
        let (xsize, ysize) = self.0;
        ((xsize - 1) as usize, (ysize - 1) as usize)
    }

    pub fn xsize(&self) -> (r: u16)
        ensures
            r == self.0.0,
    {
        self.0.0
    }

    pub fn ysize(&self) -> (r: u16)
        ensures
            r == self.0.1,
    {
        self.0.1
    }
}

impl Position {
    pub fn position(&self) -> (r: (u16, u16))
        ensures
            r == self.0,
    {
        self.0
    }

    pub fn position_u(&self) -> (r: (usize, usize))
        requires
            self.0.0 >= 1,
            self.0.1 >= 1,
        ensures
            r.0 == self.0.0 - 1,
            r.1 == self.0.1 - 1,
    {
        let (xpos, ypos) = self.0;
        ((xpos - 1) as usize, (ypos - 1) as usize)
    }

    pub fn x(&self) -> (r: u16)
        ensures
            r == self.0.0,
    {
        self.0.0
    }

    pub fn y(&self) -> (r: u16)
        ensures
            r == self.0.1,
    {
        self.0.1
    }
}

/// Setting a 0-based size and reading it back gives the same extents,
/// for every extent that fits into a terminal dimension.
pub proof fn lemma_size_u_roundtrip(c: Coordinates, x: usize, y: usize)
    requires
        x < 65535,
        y < 65535,
        c.size.0 == ((x + 1) as u16, (y + 1) as u16),
    ensures
        c.size.0.0 - 1 == x,
        c.size.0.1 - 1 == y,
{
}

} // verus!
