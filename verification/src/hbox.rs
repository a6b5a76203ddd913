//! A row of widgets side by side: their widths are shares (in percent) of
//! the row's width, one column apart; one widget may be zoomed to fill it.
use vstd::prelude::*;
use crate::coordinates::{Coordinates, Position, Size};

verus! {

/// There is no widget to act on.
#[derive(Clone, Copy, Debug, PartialEq, Eq, Structural)]
pub struct NoWidgetError;

/// A row of widgets.
pub struct HBox<T> {
    pub widgets: Vec<T>,
    pub ratios: Option<Vec<usize>>,
    pub zoom_active: bool,
    pub active: Option<usize>,
    pub coordinates: Coordinates,
}

/// The places of widgets with the shares `ratios` in a row of `bx` columns
/// and `by` rows whose top left cell is `top`: each widget takes
/// `bx * ratio / 100` columns (the share cut to 16 bits) and starts one
/// column after the one before it. `None` where a width or position does not
/// fit in 16 bits.
pub open spec fn layout(ratios: Seq<usize>, bx: u16, by: u16, top: (u16, u16)) -> Option<Seq<Coordinates>>
    decreases ratios.len(),
{
    if ratios.len() == 0 {
        Some(Seq::empty())
    } else {
        match layout(ratios.drop_last(), bx, by, top) {
            None => None,
            Some(prev) => {
                let ratio = ratios.last() as u16;
                let xsize = bx * ratio / 100;
                let xpos = if prev.len() == 0 {
                    top.0 as int
                } else {
                    prev.last().size.0.0 + prev.last().position.0.0 + 1
                };
                if bx * ratio > u16::MAX || xpos > u16::MAX {
                    None
                } else {
                    Some(
                        prev.push(
                            Coordinates {
                                size: Size((xsize as u16, by)),
                                position: Position((xpos as u16, top.1)),
                            },
                        ),
                    )
                }
            },
        }
    }
}

pub proof fn lemma_layout_len(ratios: Seq<usize>, bx: u16, by: u16, top: (u16, u16))
    ensures
        layout(ratios, bx, by, top) matches Some(c) ==> c.len() == ratios.len(),
        layout(ratios, bx, by, top) is Some && ratios.len() > 0 ==> layout(
            ratios.drop_last(),
            bx,
            by,
            top,
        ) is Some,
    decreases ratios.len(),
{
    if ratios.len() > 0 {
        lemma_layout_len(ratios.drop_last(), bx, by, top);
    }
}

/// The shares the widgets take: the ones set, or equal shares.
pub open spec fn effective_ratios<T>(h: HBox<T>) -> Seq<usize> {
    match h.ratios {
        Some(r) => r@,
        None => Seq::new(h.widgets@.len(), |i: int| (100nat / h.widgets@.len()) as usize),
    }
}

impl<T> HBox<T> {
    /// An empty row at `coordinates`.
    pub fn new(coordinates: Coordinates) -> (r: HBox<T>)
        ensures
            r.widgets@.len() == 0,
            r.ratios is None,
            !r.zoom_active,
            r.active is None,
            r.coordinates == coordinates,
    {
        HBox { widgets: Vec::new(), ratios: None, zoom_active: false, active: None, coordinates }
    }

    pub fn push_widget(&mut self, widget: T)
        ensures
            final(self).widgets@ == old(self).widgets@.push(widget),
    {
        self.widgets.push(widget);
    }

    pub fn pop_widget(&mut self) -> (r: Option<T>)
        ensures
            old(self).widgets@.len() == 0 ==> r is None && final(self).widgets@ == old(self).widgets@,
            old(self).widgets@.len() > 0 ==> r == Some(old(self).widgets@.last())
                && final(self).widgets@ == old(self).widgets@.drop_last(),
    {
        self.widgets.pop()
    }

    pub fn remove_widget(&mut self, index: usize) -> (r: T)
        requires
            index < old(self).widgets@.len(),
        ensures
            r == old(self).widgets@[index as int],
            final(self).widgets@ == old(self).widgets@.remove(index as int),
    {
        self.widgets.remove(index)
    }

    pub fn prepend_widget(&mut self, widget: T)
        ensures
            final(self).widgets@ == old(self).widgets@.insert(0, widget),
    {
        self.widgets.insert(0, widget);
    }

    pub fn insert_widget(&mut self, index: usize, widget: T)
        requires
            index <= old(self).widgets@.len(),
        ensures
            final(self).widgets@ == old(self).widgets@.insert(index as int, widget),
    {
        self.widgets.insert(index, widget);
    }

    /// Puts `widget` in place of widget `index` and gives back the one it replaced.
    pub fn replace_widget(&mut self, index: usize, widget: T) -> (r: T)
        requires
            index < old(self).widgets@.len(),
        ensures
            r == old(self).widgets@[index as int],
            final(self).widgets@ == old(self).widgets@.update(index as int, widget),
    {
        let mut widget = widget;
        let ghost w = widget;
        let mut taken = self.widgets.remove(index);
        std::mem::swap(&mut taken, &mut widget);
        self.widgets.insert(index, taken);
        assert(self.widgets@ =~= old(self).widgets@.update(index as int, w));
        widget
    }

    /// Switches between showing all widgets and the active one alone.
    pub fn toggle_zoom(&mut self)
        ensures
            final(self).zoom_active == !old(self).zoom_active,
            final(self).widgets@ == old(self).widgets@,
    {
        self.zoom_active = !self.zoom_active;
    }

    pub fn set_ratios(&mut self, ratios: Vec<usize>)
        ensures
            final(self).ratios == Some(ratios),
            final(self).widgets@ == old(self).widgets@,
    {
        self.ratios = Some(ratios);
    }

    /// Equal shares for all widgets, each `100 / n` percent.
    pub fn calculate_equal_ratios(&self) -> (r: Result<Vec<usize>, NoWidgetError>)
        ensures
            self.widgets@.len() == 0 <==> r is Err,
            r matches Ok(v) ==> v@ == Seq::new(
                self.widgets@.len(),
                |i: int| (100nat / self.widgets@.len()) as usize,
            ),
    {
        let len = self.widgets.len();
        if len == 0 {
            return Err(NoWidgetError);
        }
        let mut ratios: Vec<usize> = Vec::new();
        let mut i: usize = 0;
        while i < len
            invariant
                i <= len,
                len == self.widgets@.len(),
                len > 0,
                ratios@ == Seq::new(i as nat, |k: int| (100nat / len as nat) as usize),
            decreases len - i,
        {
            ratios.push(100 / len);
            i += 1;
            assert(ratios@ =~= Seq::new(i as nat, |k: int| (100nat / len as nat) as usize));
        }
        Ok(ratios)
    }

    /// The places of the widgets: `None`-free where the row holds widgets or
    /// has shares set; an error where it has neither.
    pub fn calculate_coordinates(&self) -> (r: Result<Vec<Coordinates>, NoWidgetError>)
        requires
            self.ratios is Some || self.widgets@.len() > 0 ==> layout(
                effective_ratios(*self),
                self.coordinates.size.0.0,
                self.coordinates.size.0.1,
                self.coordinates.position.0,
            ) is Some,
        ensures
            (self.ratios is None && self.widgets@.len() == 0) <==> r is Err,
            r matches Ok(v) ==> Some(v@) == layout(
                effective_ratios(*self),
                self.coordinates.size.0.0,
                self.coordinates.size.0.1,
                self.coordinates.position.0,
            ),
    {
        let box_xsize = self.coordinates.xsize();
        let box_ysize = self.coordinates.ysize();
        let top = self.coordinates.top();
        let ratios = match &self.ratios {
            Some(ratios) => ratios.clone(),
            None => self.calculate_equal_ratios()?,
        };
        assert(ratios@ == effective_ratios(*self));
        let ghost full = ratios@;
        proof {
            lemma_layout_len(full, box_xsize, box_ysize, top.0);
        }
        let mut coords: Vec<Coordinates> = Vec::new();
        let mut i: usize = 0;
        assert(full.take(0) =~= Seq::<usize>::empty());
        while i < ratios.len()
            invariant
                i <= full.len(),
                full == ratios@,
                layout(full, box_xsize, box_ysize, top.0) is Some,
                layout(full.take(i as int), box_xsize, box_ysize, top.0) == Some(coords@),
                coords@.len() == i,
            decreases ratios.len() - i,
        {
            proof {
                lemma_layout_prefix(full, i as int + 1, box_xsize, box_ysize, top.0);
            }
            assert(full.take(i + 1).drop_last() =~= full.take(i as int));
            assert(full.take(i + 1).last() == full[i as int]);
            let ratio = ratios[i] as u16;
            let widget_xsize = box_xsize * ratio / 100;
            let widget_xpos = if i == 0 {
                top.x()
            } else {
                let prev = &coords[i - 1];
                prev.xsize() + prev.position().x() + 1
            };
            coords.push(Coordinates::new_at(widget_xsize, box_ysize, widget_xpos, top.y()));
            i += 1;
        }
        assert(full.take(i as int) =~= full);
        Ok(coords)
    }

    /// `calculate_coordinates` where the places fit in 16 bits, and `None`
    /// where they do not.
    pub fn try_calculate_coordinates(&self) -> (r: Option<Result<Vec<Coordinates>, NoWidgetError>>)
        ensures
            r is None <==> ((self.ratios is Some || self.widgets@.len() > 0) && layout(
                effective_ratios(*self),
                self.coordinates.size.0.0,
                self.coordinates.size.0.1,
                self.coordinates.position.0,
            ) is None),
            r matches Some(res) ==> ((self.ratios is None && self.widgets@.len() == 0) <==> res is Err),
            r matches Some(Ok(v)) ==> Some(v@) == layout(
                effective_ratios(*self),
                self.coordinates.size.0.0,
                self.coordinates.size.0.1,
                self.coordinates.position.0,
            ),
    {
        let ratios = match &self.ratios {
            Some(ratios) => ratios.clone(),
            None => match self.calculate_equal_ratios() {
                Ok(r) => r,
                Err(e) => {
                    return Some(Err(e));
                },
            },
        };
        assert(ratios@ == effective_ratios(*self));
        if layout_fits(&ratios, self.coordinates.xsize(), self.coordinates.ysize(), self.coordinates.top().0) {
            Some(self.calculate_coordinates())
        } else {
            None
        }
    }

    /// Makes widget `i` the active one, if there is one.
    pub fn set_active(&mut self, i: usize) -> (r: Result<(), NoWidgetError>)
        requires
            i < usize::MAX,
        ensures
            r is Ok <==> i < old(self).widgets@.len(),
            r is Ok ==> final(self).active == Some(i),
            r is Err ==> final(self).active == old(self).active,
            final(self).widgets@ == old(self).widgets@,
    {
        if i + 1 > self.widgets.len() {
            return Err(NoWidgetError);
        }
        self.active = Some(i);
        Ok(())
    }

    /// The active widget, if one is set and there.
    pub fn active_widget(&self) -> (r: Option<&T>)
        ensures
            match self.active {
                Some(a) => if a < self.widgets@.len() {
                    r == Some(&self.widgets@[a as int])
                } else {
                    r is None
                },
                None => r is None,
            },
    {
        match self.active {
            Some(a) => {
                if a < self.widgets.len() {
                    Some(&self.widgets[a])
                } else {
                    None
                }
            },
            None => None,
        }
    }
}

/// Whether the widgets with the shares `ratios` fit in a row `bx` wide:
/// each width before its division by 100, and each position, within 16
/// bits.
pub fn layout_fits(ratios: &Vec<usize>, bx: u16, by: u16, top: (u16, u16)) -> (r: bool)
    ensures
        r == layout(ratios@, bx, by, top) is Some,
{
    let ghost full = ratios@;
    let mut next: u64 = top.0 as u64;
    let mut i: usize = 0;
    assert(full.take(0) =~= Seq::<usize>::empty());
    while i < ratios.len()
        invariant
            i <= full.len(),
            full == ratios@,
            layout(full.take(i as int), bx, by, top) matches Some(c) && c.len() == i && (if i == 0 {
                next == top.0
            } else {
                next == c.last().size.0.0 + c.last().position.0.0 + 1
            }),
        decreases ratios.len() - i,
    {
        proof {
            lemma_layout_len(full.take(i as int), bx, by, top);
        }
        assert(full.take(i + 1).drop_last() =~= full.take(i as int));
        assert(full.take(i + 1).last() == full[i as int]);
        let ratio = ratios[i] as u16;
        let b = bx as u64;
        let q = ratio as u64;
        assert(b * q <= 65535 * 65535) by (nonlinear_arith)
            requires
                b <= 65535,
                q <= 65535,
        ;
        let wide = b * q;
        if wide > 65535 || next > 65535 {
            proof {
                if layout(full, bx, by, top) is Some {
                    lemma_layout_prefix(full, i as int + 1, bx, by, top);
                }
            }
            return false;
        }
        next = wide / 100 + next + 1;
        i += 1;
    }
    assert(full.take(i as int) =~= full);
    true
}

/// A layout that fits for some shares fits for their first ones too.
pub proof fn lemma_layout_prefix(ratios: Seq<usize>, n: int, bx: u16, by: u16, top: (u16, u16))
    requires
        0 <= n <= ratios.len(),
        layout(ratios, bx, by, top) is Some,
    ensures
        layout(ratios.take(n), bx, by, top) is Some,
    decreases ratios.len() - n,
{
    if n < ratios.len() {
        lemma_layout_len(ratios, bx, by, top);
        assert(ratios.drop_last().take(n) =~= ratios.take(n));
        lemma_layout_prefix(ratios.drop_last(), n, bx, by, top);
    } else {
        assert(ratios.take(n) =~= ratios);
    }
}

} // verus!
