//! Tabs: a list of widgets of which one is shown, with switching forward,
//! backward and to a numbered tab, opening and closing.
use vstd::prelude::*;
use vstd::utf8::encode_utf8;
use vstd::arithmetic::div_mod::{lemma_add_mod_noop, lemma_mod_twice};
use crate::proclist::push_str_chars;
use crate::term::{bg_code, decimal, fg_code, goto_code, goto_xy, header_color, invert, push_decimal, reset};
use crate::text::chars_to_string;

verus! {

/// The tab after `active` among `len` tabs, the first after the last.
pub open spec fn next_index(active: int, len: int) -> int {
    if active + 1 == len {
        0
    } else {
        active + 1
    }
}

/// The tab before `active` among `len` tabs, the last before the first.
pub open spec fn prev_index(active: int, len: int) -> int {
    if active == 0 {
        len - 1
    } else {
        active - 1
    }
}

/// A list of tabs and the index of the one shown.
pub struct TabView<T> {
    pub widgets: Vec<T>,
    pub active: usize,
}

impl<T> TabView<T> {
    /// No tabs, the first one active.
    pub fn new() -> (r: TabView<T>)
        ensures
            r.widgets@.len() == 0,
            r.active == 0,
    {
        TabView { widgets: Vec::new(), active: 0 }
    }

    /// Adds a tab at the end.
    pub fn push_widget(&mut self, widget: T)
        ensures
            final(self).widgets@ == old(self).widgets@.push(widget),
            final(self).active == old(self).active,
    {
        self.widgets.push(widget);
    }

    /// Takes the last tab away; the active index moves back when it pointed
    /// past the remaining tabs. With no tabs there is nothing to take.
    pub fn pop_widget(&mut self) -> (r: Option<T>)
        requires
            !(old(self).widgets@.len() == 1 && old(self).active == 0),
        ensures
            old(self).widgets@.len() == 0 ==> r is None && (final(self).widgets@ == old(self).widgets@ && final(self).active == old(self).active),
            old(self).widgets@.len() > 0 ==> {
                &&& r == Some(old(self).widgets@.last())
                &&& final(self).widgets@ == old(self).widgets@.drop_last()
                &&& final(self).active == if final(self).widgets@.len() <= old(self).active {
                    old(self).active - 1
                } else {
                    old(self).active as int
                }
            },
    {
        let widget = self.widgets.pop();
        match widget {
            None => None,
            Some(w) => {
                if self.widgets.len() <= self.active {
                    self.active = self.active - 1;
                }
                Some(w)
            },
        }
    }

    /// Removes tab `index` unless it is the only one; removing the last tab
    /// moves the active index back by one.
    pub fn remove_widget(&mut self, index: usize)
        requires
            old(self).widgets@.len() > 1 ==> index < old(self).widgets@.len(),
            old(self).widgets@.len() > 1 && index + 1 == old(self).widgets@.len() ==> old(
                self,
            ).active > 0,
        ensures
            old(self).widgets@.len() <= 1 ==> (final(self).widgets@ == old(self).widgets@ && final(self).active == old(self).active),
            old(self).widgets@.len() > 1 ==> {
                &&& final(self).widgets@ == old(self).widgets@.remove(index as int)
                &&& final(self).active == if index + 1 == old(self).widgets@.len() {
                    old(self).active - 1
                } else {
                    old(self).active as int
                }
            },
    {
        let len = self.widgets.len();
        if len > 1 {
            self.widgets.remove(index);
            if index + 1 == len {
                self.active = self.active - 1;
            }
        }
    }

    /// Switches to tab `index` if there is one; returns whether it switched.
    pub fn goto_tab_(&mut self, index: usize) -> (switched: bool)
        ensures
            switched == (index < old(self).widgets@.len()),
            final(self).widgets@ == old(self).widgets@,
            final(self).active == if switched {
                index
            } else {
                old(self).active
            },
    {
        if index < self.widgets.len() {
            self.active = index;
            true
        } else {
            false
        }
    }

    /// The active tab.
    pub fn active_tab_(&self) -> (r: &T)
        requires
            self.active < self.widgets@.len(),
        ensures
            *r == self.widgets@[self.active as int],
    {
        &self.widgets[self.active]
    }

    /// Closes the active tab.
    pub fn close_tab_(&mut self)
        requires
            old(self).widgets@.len() > 1 ==> old(self).active < old(self).widgets@.len(),
            old(self).widgets@.len() > 1 && old(self).active + 1 == old(self).widgets@.len()
                ==> old(self).active > 0,
        ensures
            old(self).widgets@.len() <= 1 ==> (final(self).widgets@ == old(self).widgets@ && final(self).active == old(self).active),
            old(self).widgets@.len() > 1 ==> {
                &&& final(self).widgets@ == old(self).widgets@.remove(old(self).active as int)
                &&& final(self).active == if old(self).active + 1 == old(self).widgets@.len() {
                    old(self).active - 1
                } else {
                    old(self).active as int
                }
            },
    {
        let active = self.active;
        self.remove_widget(active);
    }

    /// Switches to the next tab, from the last one to the first.
    pub fn next_tab_(&mut self)
        requires
            old(self).active < old(self).widgets@.len(),
        ensures
            final(self).widgets@ == old(self).widgets@,
            final(self).active == next_index(old(self).active as int, old(self).widgets@.len() as int),
    {
        let len = self.widgets.len();
        if self.active + 1 == len {
            self.active = 0;
        } else {
            self.active = self.active + 1;
        }
    }

    /// Switches to the previous tab, from the first one to the last.
    pub fn prev_tab_(&mut self)
        requires
            old(self).widgets@.len() > 0,
        ensures
            final(self).widgets@ == old(self).widgets@,
            final(self).active == prev_index(old(self).active as int, old(self).widgets@.len() as int),
    {
        if self.active == 0 {
            self.active = self.widgets.len() - 1;
        } else {
            self.active = self.active - 1;
        }
    }
}

/// Switching to the next tab and then to the previous one, or to the
/// previous one and then to the next one, comes back to the tab that was
/// active.
pub proof fn lemma_next_prev_inverse(len: int, active: int)
    requires
        0 <= active < len,
    ensures
        prev_index(next_index(active, len), len) == active,
        next_index(prev_index(active, len), len) == active,
        0 <= next_index(active, len) < len,
        0 <= prev_index(active, len) < len,
{
}

/// The bytes of the labels of tabs `0 .. names.len()`: each its number, a
/// colon, its name (its length in a `usize`) and a space.
pub open spec fn labels_len(names: Seq<Seq<char>>) -> nat
    decreases names.len(),
{
    if names.len() == 0 {
        0
    } else {
        let i = (names.len() - 1) as nat;
        labels_len(names.drop_last()) + decimal(i).len() + 1 + (encode_utf8(names.last()).len() as usize) as nat + 1
    }
}

/// The labels of tabs `0 .. names.len()`: each a space, its number, a colon
/// and its name, the shown tab's inverted.
pub open spec fn tab_labels(names: Seq<Seq<char>>, active: int) -> Seq<char>
    decreases names.len(),
{
    if names.len() == 0 {
        Seq::empty()
    } else {
        let i = (names.len() - 1) as nat;
        let label = decimal(i) + ":"@ + names.last();
        tab_labels(names.drop_last(), active) + if i == active {
            " "@ + "\x1b[7m"@ + label + "\x1b[m"@ + fg_code(7) + bg_code(4)
        } else {
            " "@ + label
        }
    }
}

/// The names of the tabs, each of them known.
pub open spec fn known_names(names: Seq<Option<String>>) -> Seq<Seq<char>> {
    names.map_values(|n: Option<String>| n->0@)
}

/// The header of the tabs: the shown tab's own header, then in the header
/// color the tabs' labels, ending at the right end of the row (from its
/// left end where they do not fit; their width counted in bytes, modulo
/// 65536 as a cast to 16 bits leaves it).
pub open spec fn tab_header_text(header: Seq<char>, names: Seq<Seq<char>>, active: int, xsize: u16) -> Seq<char> {
    let len = (labels_len(names) % 65536) as int;
    let pos = if xsize >= len {
        xsize - len
    } else {
        0
    };
    header + fg_code(7) + bg_code(4) + goto_code(pos as u16, 1) + tab_labels(names, active)
}

/// The header of the tab view, `header` being the shown tab's header, over
/// tabs named `names` (each name known), tab `active` shown.
pub fn tab_header(header: &str, names: &Vec<Option<String>>, active: usize, xsize: u16) -> (r: String)
    requires
        forall|i: int| 0 <= i < names@.len() ==> (#[trigger] names@[i]) is Some,
    ensures
        r@ == tab_header_text(header@, known_names(names@), active as int, xsize),
{
    let ghost ns = known_names(names@);
    let mut labels: Vec<char> = Vec::new();
    let mut len: u64 = 0;
    let mut i: usize = 0;
    while i < names.len()
        invariant
            i <= names@.len(),
            ns == known_names(names@),
            ns.len() == names@.len(),
            forall|k: int| 0 <= k < names@.len() ==> (#[trigger] names@[k]) is Some,
            labels@ == tab_labels(ns.take(i as int), active as int),
            len == labels_len(ns.take(i as int)) % 65536,
        decreases names.len() - i,
    {
        let name = match &names[i] {
            Some(n) => n,
            None => {
                return String::new();
            },
        };
        assert(ns[i as int] == name@);
        assert(ns.take(i + 1).drop_last() =~= ns.take(i as int));
        assert(ns.take(i + 1).last() == name@);
        let ghost before = labels@;
        let mut num: Vec<char> = Vec::new();
        push_decimal(&mut num, i);
        let bytes = name.as_str().len();
        let piece: u128 = num.len() as u128 + 1 + bytes as u128 + 1;
        proof {
            lemma_add_mod_noop(labels_len(ns.take(i as int)) as int, piece as int, 65536);
            lemma_mod_twice(labels_len(ns.take(i as int)) as int, 65536);
            assert(num@ =~= decimal(i as nat));
            lemma_add_mod_noop(len as int, piece as int, 65536);
        }
        len = ((len as u128 + piece) % 65536) as u64;
        if i == active {
            push_str_chars(&mut labels, " ");
            push_str_chars(&mut labels, invert().as_str());
        } else {
            push_str_chars(&mut labels, " ");
        }
        let ghost mid = labels@;
        let mut k: usize = 0;
        while k < num.len()
            invariant
                k <= num@.len(),
                labels@ == mid + num@.take(k as int),
            decreases num.len() - k,
        {
            labels.push(num[k]);
            k += 1;
            assert(labels@ =~= mid + num@.take(k as int));
        }
        assert(num@.take(k as int) =~= num@);
        push_str_chars(&mut labels, ":");
        push_str_chars(&mut labels, name.as_str());
        if i == active {
            push_str_chars(&mut labels, reset().as_str());
            push_str_chars(&mut labels, header_color().as_str());
        }
        proof {
            reveal_strlit(" ");
            reveal_strlit(":");
            let label = decimal(i as nat) + ":"@ + name@;
            if i == active {
                assert(labels@ =~= before + (" "@ + "\x1b[7m"@ + label + "\x1b[m"@ + fg_code(7) + bg_code(4)));
            } else {
                assert(labels@ =~= before + (" "@ + label));
            }
        }
        i += 1;
    }
    assert(ns.take(i as int) =~= ns);
    let total = len as u16;
    let pos = if xsize >= total {
        xsize - total
    } else {
        0
    };
    let mut out: Vec<char> = Vec::new();
    push_str_chars(&mut out, header);
    push_str_chars(&mut out, header_color().as_str());
    push_str_chars(&mut out, goto_xy(pos, 1).as_str());
    let ghost before = out@;
    let mut k: usize = 0;
    while k < labels.len()
        invariant
            k <= labels@.len(),
            out@ == before + labels@.take(k as int),
        decreases labels.len() - k,
    {
        out.push(labels[k]);
        k += 1;
        assert(out@ =~= before + labels@.take(k as int));
    }
    assert(labels@.take(k as int) =~= labels@);
    chars_to_string(&out)
}

} // verus!
