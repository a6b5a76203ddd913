//! Drawing a directory's list: each file's line (its name cut to the
//! width, marks for tags and selections, its size at the right end) and the
//! lines the list shows from the top of its view.
use vstd::prelude::*;
use crate::files::{File, FileView, Files, lemma_shown_positions_bound, size_steps, unit_name, views};
use crate::listview::ListView;
use crate::proclist::push_str_chars;
use crate::tags::{holds_path, Tags};
use crate::term::{
    cjk_excess, color_red, color_yellow, cursor_restore, cursor_right, cursor_save, decimal,
    display_width, fg_code, highlight_color, normal_color, pad_chars, padded, push_decimal,
    right_code, sized_prefix, sized_string, str_width, str_width_cjk,
};
use crate::text::chars_to_string;

verus! {

/// How the terminal shows a file besides its name: the color escape code
/// of its kind (as `LS_COLORS` gives it, if at all), and its icon.
#[derive(Clone, Debug)]
pub struct FileLook {
    pub color: Option<String>,
    pub icon: String,
}

/// Whether a file is drawn with the tag mark: its tag where it knows it,
/// else whether the loaded tags hold its path (never before they are read).
pub open spec fn tag_shown(f: FileView, tags: Tags) -> bool {
    match f.tag {
        Some(t) => t,
        None => tags.loaded && holds_path(tags.view(), f.path),
    }
}

/// The size column of a file and its unit: a directory's count of entries,
/// a file's size divided by 1024 while it is above 1024 with the unit's
/// name, and `ERR` where neither is known.
pub open spec fn size_parts(f: FileView) -> (Seq<char>, Seq<char>) {
    match f.dirsize {
        Some(d) => (decimal((d as u32) as nat), Seq::empty()),
        None => match f.meta {
            None => ("ERR"@, Seq::empty()),
            Some(m) => (decimal(size_steps(m.size as nat).0), unit_name(size_steps(m.size as nat).1)),
        },
    }
}

/// The icon drawn before a name: the file's icon where icons are on.
pub open spec fn icon_shown(icon: Seq<char>, icons: bool) -> Seq<char> {
    if icons {
        icon
    } else {
        Seq::empty()
    }
}

/// The space after the icon, where icons are on and spaced.
pub open spec fn gap_shown(icons: bool, icons_space: bool) -> Seq<char> {
    if icons && icons_space {
        " "@
    } else {
        Seq::empty()
    }
}

/// The arrow before the size of a link.
pub open spec fn link_mark(f: FileView) -> Seq<char> {
    if f.target is Some {
        fg_code(3) + "--> "@ + fg_code(10)
    } else {
        Seq::empty()
    }
}

/// The columns of the arrow before the size of a link.
pub open spec fn link_len(f: FileView) -> int {
    if f.target is Some {
        4
    } else {
        0
    }
}

/// Where a file's line can be drawn `xsize` columns wide: its size column
/// (with the link's arrow) fits, and so do the cut name's excess, the tag
/// mark, the icon with its space and one more column.
pub open spec fn file_line_fits(f: FileView, xsize: u16, icon: Seq<char>, gap: Seq<char>, tagged: bool) -> bool {
    let sized = sized_prefix(f.name, xsize as int);
    let tag_len: int = if tagged {
        1
    } else {
        0
    };
    &&& size_parts(f).0.len() + size_parts(f).1.len() + link_len(f) <= xsize
    &&& cjk_excess(sized) >= 0
    &&& (cjk_excess(sized) as u16) + tag_len + (display_width(icon) as u16) + gap.len() + 1 <= xsize
}

/// The start of a file's line: the cursor saved, the tag mark, the name's
/// color (yellow after a space where the file is selected), its icon and
/// the icon's space.
pub open spec fn line_head(tagged: bool, color: Option<Seq<char>>, selected: bool, icon: Seq<char>, gap: Seq<char>) -> Seq<char> {
    let tag = if tagged {
        fg_code(1) + "*"@
    } else {
        Seq::empty()
    };
    let colored = match color {
        Some(c) => c,
        None => fg_code(7),
    };
    let sel = if selected {
        fg_code(3) + " "@
    } else {
        Seq::empty()
    };
    "\x1b[s"@ + tag + colored + sel + icon + gap
}

/// The end of a file's line: the color reset, the cursor back at the start
/// and moved right to `size_pos`, the link's arrow and the size with its unit.
pub open spec fn line_tail(size_pos: u16, link: Seq<char>, size: Seq<char>, unit: Seq<char>) -> Seq<char> {
    fg_code(7) + "\x1b[u"@ + right_code(size_pos) + link + fg_code(10) + size + unit
}

/// The room a file's name is padded to: the width less the cut name's
/// excess, the tag mark, the icon with its space and one more column.
pub open spec fn name_room(f: FileView, xsize: u16, icon: Seq<char>, gap: Seq<char>, tagged: bool) -> int {
    let tag_len: int = if tagged {
        1
    } else {
        0
    };
    xsize - (cjk_excess(sized_prefix(f.name, xsize as int)) as u16) - tag_len - (display_width(icon) as u16)
        - gap.len() - 1
}

/// A file's line: the tag mark, the name in its color (yellow after a space
/// where it is selected) behind its icon, cut to the width and padded; then
/// at the right end the link's arrow and the size with its unit.
pub open spec fn file_line_text(
    f: FileView,
    xsize: u16,
    color: Option<Seq<char>>,
    icon: Seq<char>,
    gap: Seq<char>,
    tagged: bool,
) -> Seq<char> {
    let (size, unit) = size_parts(f);
    line_head(tagged, color, f.selected, icon, gap) + padded(
        sized_prefix(f.name, xsize as int),
        name_room(f, xsize, icon, gap, tagged) as nat,
    ) + line_tail((xsize - (size.len() + unit.len() + link_len(f))) as u16, link_mark(f), size, unit)
}

fn head_of(tagged: bool, color: &Option<String>, selected: bool, icon: &str, gap: &str) -> (r: Vec<char>)
    ensures
        r@ == line_head(
            tagged,
            match color {
                Some(c) => Some(c@),
                None => None,
            },
            selected,
            icon@,
            gap@,
        ),
{
    let mut out: Vec<char> = Vec::new();
    push_str_chars(&mut out, cursor_save().as_str());
    if tagged {
        push_str_chars(&mut out, color_red().as_str());
        push_str_chars(&mut out, "*");
    }
    match color {
        Some(c) => push_str_chars(&mut out, c.as_str()),
        None => push_str_chars(&mut out, normal_color().as_str()),
    }
    if selected {
        push_str_chars(&mut out, color_yellow().as_str());
        push_str_chars(&mut out, " ");
    }
    push_str_chars(&mut out, icon);
    push_str_chars(&mut out, gap);
    proof {
        reveal_strlit("*");
        reveal_strlit(" ");
    }
    out
}

fn tail_of(size_pos: u16, link: bool, size: &Vec<char>, unit: &str) -> (r: Vec<char>)
    ensures
        r@ == line_tail(
            size_pos,
            if link {
                fg_code(3) + "--> "@ + fg_code(10)
            } else {
                Seq::empty()
            },
            size@,
            unit@,
        ),
{
    let mut out: Vec<char> = Vec::new();
    push_str_chars(&mut out, normal_color().as_str());
    push_str_chars(&mut out, cursor_restore().as_str());
    push_str_chars(&mut out, cursor_right(size_pos).as_str());
    if link {
        push_str_chars(&mut out, color_yellow().as_str());
        push_str_chars(&mut out, "--> ");
        push_str_chars(&mut out, highlight_color().as_str());
    }
    push_str_chars(&mut out, highlight_color().as_str());
    let mut k: usize = 0;
    let ghost before = out@;
    while k < size.len()
        invariant
            k <= size@.len(),
            out@ == before + size@.take(k as int),
        decreases size.len() - k,
    {
        out.push(size[k]);
        k += 1;
        assert(out@ =~= before + size@.take(k as int));
    }
    assert(size@.take(k as int) =~= size@);
    push_str_chars(&mut out, unit);
    proof {
        reveal_strlit("--> ");
    }
    out
}

fn size_column(file: &File) -> (r: (Vec<char>, &'static str))
    ensures
        r.0@ == size_parts(file@).0,
        r.1@ == size_parts(file@).1,
{
    match file.calculate_size() {
        Some((n, u)) => {
            let mut v: Vec<char> = Vec::new();
            push_decimal(&mut v, n as usize);
            proof {
                reveal_strlit("");
                assert(v@ =~= decimal(n as nat));
            }
            (v, u)
        },
        None => {
            let mut v: Vec<char> = Vec::new();
            push_str_chars(&mut v, "ERR");
            proof {
                reveal_strlit("");
            }
            (v, "")
        },
    }
}

fn tag_of(file: &File, tags: &Tags) -> (r: bool)
    ensures
        r == tag_shown(file@, *tags),
{
    match file.is_tagged(tags) {
        Ok(t) => t,
        Err(_) => false,
    }
}

fn icon_of(look: &FileLook, icons: bool) -> (r: &str)
    ensures
        r@ == icon_shown(look.icon@, icons),
{
    if icons {
        look.icon.as_str()
    } else {
        proof {
            reveal_strlit("");
        }
        ""
    }
}

fn gap_of(icons: bool, icons_space: bool) -> (r: &'static str)
    ensures
        r@ == gap_shown(icons, icons_space),
{
    proof {
        reveal_strlit("");
        reveal_strlit(" ");
    }
    if icons && icons_space {
        " "
    } else {
        ""
    }
}

/// The color of a look, as text.
pub open spec fn look_color(look: FileLook) -> Option<Seq<char>> {
    match look.color {
        Some(c) => Some(c@),
        None => None,
    }
}

/// Whether the lines the list shows, for `rows` of the shown files from the
/// top of the view, can all be drawn.
pub open spec fn rows_fit(
    files: Seq<File>,
    sv: Seq<int>,
    from: int,
    to: int,
    xsize: u16,
    looks: Seq<FileLook>,
    icons: bool,
    icons_space: bool,
    tags: Tags,
) -> bool {
    forall|k: int|
        from <= k < to ==> file_line_fits(
            files[#[trigger] sv[k]]@,
            xsize,
            icon_shown(looks[sv[k]].icon@, icons),
            gap_shown(icons, icons_space),
            tag_shown(files[sv[k]]@, tags),
        )
}

/// The end of the lines the list shows: one more than the view is high
/// from its top, or the end of the shown files.
pub open spec fn rows_end(offset: int, ysize: int, shown_len: int) -> int {
    if offset + ysize + 1 < shown_len {
        offset + ysize + 1
    } else {
        shown_len
    }
}

impl ListView<Files> {
    /// The line of `file` in the list, with its look `look`, its icon where
    /// `icons` are on (and a space after it where `icons_space` is), its tag
    /// mark as `tags` know it.
    pub fn render_line(&self, file: &File, look: &FileLook, icons: bool, icons_space: bool, tags: &Tags) -> (r: String)
        requires
            file_line_fits(
                file@,
                self.coordinates.size.0.0,
                icon_shown(look.icon@, icons),
                gap_shown(icons, icons_space),
                tag_shown(file@, *tags),
            ),
        ensures
            r@ == file_line_text(
                file@,
                self.coordinates.size.0.0,
                look_color(*look),
                icon_shown(look.icon@, icons),
                gap_shown(icons, icons_space),
                tag_shown(file@, *tags),
            ),
    {
        let xsize = self.coordinates.size.0.0;
        let tagged = tag_of(file, tags);
        let icon = icon_of(look, icons);
        let gap = gap_of(icons, icons_space);
        let (size, unit) = size_column(file);
        let sized = sized_string(file.name.as_str(), xsize);
        let link: u16 = if file.target.is_some() {
            4
        } else {
            0
        };
        let size_pos = xsize - (size.len() as u16 + unit.unicode_len() as u16 + link);
        let excess = sized.as_str().len() - str_width_cjk(sized.as_str());
        let mut padding = xsize - excess as u16;
        if tagged {
            padding = padding - 1;
        }
        padding = padding - str_width(icon) as u16;
        padding = padding - gap.unicode_len() as u16;
        padding = padding - 1;
        let mut out = head_of(tagged, &look.color, file.selected, icon, gap);
        push_str_chars(&mut out, pad_chars(sized.as_str(), padding as usize).as_str());
        let tail = tail_of(size_pos, file.target.is_some(), &size, unit);
        let ghost before = out@;
        let mut k: usize = 0;
        while k < tail.len()
            invariant
                k <= tail@.len(),
                out@ == before + tail@.take(k as int),
            decreases tail.len() - k,
        {
            out.push(tail[k]);
            k += 1;
            assert(out@ =~= before + tail@.take(k as int));
        }
        assert(tail@.take(k as int) =~= tail@);
        chars_to_string(&out)
    }

    /// `render_line` where the line can be drawn, and `None` where it cannot.
    pub fn try_render_line(&self, file: &File, look: &FileLook, icons: bool, icons_space: bool, tags: &Tags) -> (r: Option<String>)
        ensures
            match r {
                Some(s) => file_line_fits(
                    file@,
                    self.coordinates.size.0.0,
                    icon_shown(look.icon@, icons),
                    gap_shown(icons, icons_space),
                    tag_shown(file@, *tags),
                ) && s@ == file_line_text(
                    file@,
                    self.coordinates.size.0.0,
                    look_color(*look),
                    icon_shown(look.icon@, icons),
                    gap_shown(icons, icons_space),
                    tag_shown(file@, *tags),
                ),
                None => !file_line_fits(
                    file@,
                    self.coordinates.size.0.0,
                    icon_shown(look.icon@, icons),
                    gap_shown(icons, icons_space),
                    tag_shown(file@, *tags),
                ),
            },
    {
        if self.line_fits(file, look, icons, icons_space, tags) {
            Some(self.render_line(file, look, icons, icons_space, tags))
        } else {
            None
        }
    }

    fn line_fits(&self, file: &File, look: &FileLook, icons: bool, icons_space: bool, tags: &Tags) -> (r: bool)
        ensures
            r == file_line_fits(
                file@,
                self.coordinates.size.0.0,
                icon_shown(look.icon@, icons),
                gap_shown(icons, icons_space),
                tag_shown(file@, *tags),
            ),
    {
        let xsize = self.coordinates.size.0.0;
        let tagged = tag_of(file, tags);
        let icon = icon_of(look, icons);
        let gap = gap_of(icons, icons_space);
        let (size, unit) = size_column(file);
        let sized = sized_string(file.name.as_str(), xsize);
        let link: u64 = if file.target.is_some() {
            4
        } else {
            0
        };
        if size.len() as u128 + unit.unicode_len() as u128 + link as u128 > xsize as u128 {
            return false;
        }
        let bytes = sized.as_str().len();
        let width = str_width_cjk(sized.as_str());
        if width > bytes {
            return false;
        }
        let tag_len: u128 = if tagged {
            1
        } else {
            0
        };
        let used = ((bytes - width) as u16) as u128 + tag_len + (str_width(icon) as u16) as u128
            + gap.unicode_len() as u128 + 1;
        used <= xsize as u128
    }

    /// The lines the list shows: those of the shown files from the top of
    /// its view (line `offset`), one more than the view is high, each drawn
    /// with its file's look from `looks` (one look per file).
    pub fn render(&self, looks: &Vec<FileLook>, icons: bool, icons_space: bool, tags: &Tags) -> (r: Vec<String>)
        requires
            looks@.len() == self.content.files@.len(),
            self.offset <= self.selection,
            rows_fit(
                self.content.files@,
                self.shown(),
                self.offset as int,
                rows_end(self.offset as int, self.ysize_spec(), self.shown().len() as int),
                self.coordinates.size.0.0,
                looks@,
                icons,
                icons_space,
                *tags,
            ),
        ensures
            r@.len() == if rows_end(self.offset as int, self.ysize_spec(), self.shown().len() as int)
                > self.offset {
                rows_end(self.offset as int, self.ysize_spec(), self.shown().len() as int) - self.offset
            } else {
                0
            },
            forall|j: int|
                0 <= j < r@.len() ==> #[trigger] r@[j]@ == file_line_text(
                    self.content.files@[self.shown()[self.offset + j]]@,
                    self.coordinates.size.0.0,
                    look_color(looks@[self.shown()[self.offset + j]]),
                    icon_shown(looks@[self.shown()[self.offset + j]].icon@, icons),
                    gap_shown(icons, icons_space),
                    tag_shown(self.content.files@[self.shown()[self.offset + j]]@, *tags),
                ),
    {
        let v = self.content.visible_positions();
        let ghost sv = self.shown();
        proof {
            lemma_shown_positions_bound(
                views(self.content.files@),
                self.content.filter_view(),
                self.content.filter_selected,
                self.content.show_hidden,
            );
        }
        assert(v@.len() == sv.len()) by {
            assert(v@.map_values(|p: usize| p as int).len() == v@.len());
        }
        let rows: usize = self.coordinates.size.0.1 as usize + 1;
        let mut end = v.len();
        if self.offset < end && end - self.offset > rows {
            end = self.offset + rows;
        }
        let ghost e = rows_end(self.offset as int, self.ysize_spec(), sv.len() as int);
        assert(end == e || (end == v.len() && e <= self.offset));
        let mut out: Vec<String> = Vec::new();
        let mut k = self.offset;
        while k < end
            invariant
                self.offset <= k,
                k <= end || end <= self.offset,
                end <= self.offset ==> k == self.offset,
                end <= v@.len(),
                v@.len() == sv.len(),
                v@.map_values(|p: usize| p as int) == sv,
                sv == self.shown(),
                looks@.len() == self.content.files@.len(),
                forall|i: int| 0 <= i < sv.len() ==> 0 <= #[trigger] sv[i] < self.content.files@.len(),
                rows_fit(
                    self.content.files@,
                    sv,
                    self.offset as int,
                    e,
                    self.coordinates.size.0.0,
                    looks@,
                    icons,
                    icons_space,
                    *tags,
                ),
                end == e || (end == v.len() && e <= self.offset),
                e == rows_end(self.offset as int, self.ysize_spec(), sv.len() as int),
                out@.len() == if k >= self.offset { k - self.offset } else { 0 },
                forall|j: int|
                    0 <= j < out@.len() ==> #[trigger] out@[j]@ == file_line_text(
                        self.content.files@[sv[self.offset + j]]@,
                        self.coordinates.size.0.0,
                        look_color(looks@[sv[self.offset + j]]),
                        icon_shown(looks@[sv[self.offset + j]].icon@, icons),
                        gap_shown(icons, icons_space),
                        tag_shown(self.content.files@[sv[self.offset + j]]@, *tags),
                    ),
            decreases end - k,
        {
            let p = v[k];
            assert(sv[k as int] == p as int);
            assert(k < e);
            assert(file_line_fits(
                self.content.files@[sv[k as int]]@,
                self.coordinates.size.0.0,
                icon_shown(looks@[sv[k as int]].icon@, icons),
                gap_shown(icons, icons_space),
                tag_shown(self.content.files@[sv[k as int]]@, *tags),
            ));
            let line = self.render_line(&self.content.files[p], &looks[p], icons, icons_space, tags);
            out.push(line);
            k += 1;
        }
        assert(out@.len() == if e > self.offset {
            e - self.offset
        } else {
            0
        });
        out
    }

    /// `render` where every line can be drawn, and `None` where the view's
    /// top is below the cursor or a line cannot be drawn.
    pub fn try_render(&self, looks: &Vec<FileLook>, icons: bool, icons_space: bool, tags: &Tags) -> (r: Option<Vec<String>>)
        requires
            looks@.len() == self.content.files@.len(),
        ensures
            r is Some <==> self.offset <= self.selection && rows_fit(
                self.content.files@,
                self.shown(),
                self.offset as int,
                rows_end(self.offset as int, self.ysize_spec(), self.shown().len() as int),
                self.coordinates.size.0.0,
                looks@,
                icons,
                icons_space,
                *tags,
            ),
            r matches Some(lines) ==> lines@.len() == if rows_end(
                self.offset as int,
                self.ysize_spec(),
                self.shown().len() as int,
            ) > self.offset {
                rows_end(self.offset as int, self.ysize_spec(), self.shown().len() as int) - self.offset
            } else {
                0
            } && forall|j: int|
                0 <= j < lines@.len() ==> #[trigger] lines@[j]@ == file_line_text(
                    self.content.files@[self.shown()[self.offset + j]]@,
                    self.coordinates.size.0.0,
                    look_color(looks@[self.shown()[self.offset + j]]),
                    icon_shown(looks@[self.shown()[self.offset + j]].icon@, icons),
                    gap_shown(icons, icons_space),
                    tag_shown(self.content.files@[self.shown()[self.offset + j]]@, *tags),
                ),
    {
        if self.offset > self.selection {
            return None;
        }
        let v = self.content.visible_positions();
        let ghost sv = self.shown();
        proof {
            lemma_shown_positions_bound(
                views(self.content.files@),
                self.content.filter_view(),
                self.content.filter_selected,
                self.content.show_hidden,
            );
        }
        assert(v@.len() == sv.len()) by {
            assert(v@.map_values(|p: usize| p as int).len() == v@.len());
        }
        let rows: usize = self.coordinates.size.0.1 as usize + 1;
        let mut end = v.len();
        if self.offset < end && end - self.offset > rows {
            end = self.offset + rows;
        }
        let ghost e = rows_end(self.offset as int, self.ysize_spec(), sv.len() as int);
        assert(end == e || (end == v.len() && e <= self.offset));
        let mut k = self.offset;
        while k < end
            invariant
                self.offset <= k,
                k <= end || end <= self.offset,
                end <= self.offset ==> k == self.offset,
                end <= v@.len(),
                v@.len() == sv.len(),
                v@.map_values(|p: usize| p as int) == sv,
                sv == self.shown(),
                looks@.len() == self.content.files@.len(),
                forall|i: int| 0 <= i < sv.len() ==> 0 <= #[trigger] sv[i] < self.content.files@.len(),
                end == e || (end == v.len() && e <= self.offset),
                e == rows_end(self.offset as int, self.ysize_spec(), sv.len() as int),
                rows_fit(
                    self.content.files@,
                    sv,
                    self.offset as int,
                    k as int,
                    self.coordinates.size.0.0,
                    looks@,
                    icons,
                    icons_space,
                    *tags,
                ),
            decreases end - k,
        {
            let p = v[k];
            assert(sv[k as int] == p as int);
            assert(k < e);
            if !self.line_fits(&self.content.files[p], &looks[p], icons, icons_space, tags) {
                assert(!file_line_fits(
                    self.content.files@[sv[k as int]]@,
                    self.coordinates.size.0.0,
                    icon_shown(looks@[sv[k as int]].icon@, icons),
                    gap_shown(icons, icons_space),
                    tag_shown(self.content.files@[sv[k as int]]@, *tags),
                ));
                return None;
            }
            k += 1;
        }
        Some(self.render(looks, icons, icons_space, tags))
    }
}

} // verus!
