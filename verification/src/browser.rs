//! The file browser's decisions: which directory is shown and which was
//! shown before, entering and leaving directories, the typed directory
//! jump, the paths an external chooser printed, and the header and footer
//! lines.
use vstd::prelude::*;
use vstd::utf8::encode_utf8;
use vstd::string::StringSliceAdditionalSpecFns;
use crate::files::{File, FileView, Files, Kind, name_of_path, opt_view, path_join, path_parent, path_strip_prefix, strip_prefix_of, views, join_path, same_path};
use crate::files::{lemma_shown_positions_bound, lemma_shown_positions_increasing};
use crate::minibuffer::MiniBufferEvent;
use crate::actions::FileBrowserAction;
use crate::coordinates::Coordinates;
use crate::stats::{last_component, Filesystem, FsExt};
use crate::term::{
    ansi_cuttable, bg_code, color_orange, color_red, color_yellow, concat, decimal, fg_code, goto_code,
    goto_xy, header_color, push_decimal, sized_prefix, sized_string, sized_string_u, sized_text,
    try_sized_string_u,
};
use crate::files::permission_text;
use crate::text::{
    chars_eq, chars_of, chars_to_string, lines, lines_chars, str_to_chars, trim_end_matches,
    trim_end_matches_chars,
};

verus! {

/// The directory the browser shows in its middle column, and the one it
/// showed before.
#[derive(Debug)]
pub struct Navigation {
    pub cwd: File,
    pub prev_cwd: Option<File>,
}

/// A file as the directory at `p` (its parent, say) is made.
pub open spec fn dir_file(f: File, p: Seq<char>) -> bool {
    &&& f.path@ == p
    &&& f.name@ == name_of_path(p)
    &&& f.kind == Kind::Directory
}

/// `r` is the directory `path` is in, as a file, or `None` at the root.
pub open spec fn parent_dir(r: Option<File>, path: Seq<char>) -> bool {
    match path_parent(path) {
        Some(p) => r matches Some(f) && dir_file(f, p),
        None => r is None,
    }
}

/// What entering the chosen entry comes to.
#[derive(Debug)]
pub enum EnterStep {
    /// The directory is shown now; the left column shows its parent
    /// (nothing at the root).
    Entered(Option<File>),
    /// The directory may not be read; the status line's text.
    Denied(String),
    /// Not a directory: it is to be opened with the opener program, by this
    /// name (none where the path has no last component).
    Open(Option<String>),
}

impl Navigation {
    /// Showing `cwd`, nothing before.
    pub fn new(cwd: File) -> (r: Navigation)
        ensures
            r.cwd == cwd,
            r.prev_cwd is None,
    {
        Navigation { cwd, prev_cwd: None }
    }

    /// Goes to `dir`, remembering the directory left; returns what the left
    /// column then shows: `dir`'s parent (nothing at the root).
    pub fn goto(&mut self, dir: File) -> (left: Option<File>)
        ensures
            final(self).prev_cwd == Some(old(self).cwd),
            final(self).cwd == dir,
            parent_dir(left, dir.path@),
    {
        let left = dir.parent_as_file();
        let old_cwd = self.cwd.clone_file();
        self.cwd = dir;
        self.prev_cwd = Some(old_cwd);
        left
    }

    /// Goes back to the directory shown before, if any (forgetting it);
    /// returns the left column's directory as `goto` does, or `None` where
    /// nothing was shown before.
    pub fn goto_prev_cwd(&mut self) -> (r: Option<Option<File>>)
        ensures
            match old(self).prev_cwd {
                Some(p) => final(self).cwd == p && final(self).prev_cwd == Some(old(self).cwd)
                    && (r matches Some(left) && parent_dir(left, p.path@)),
                None => r is None && final(self).cwd == old(self).cwd && final(self).prev_cwd is None,
            },
    {
        match self.prev_cwd.take() {
            Some(p) => Some(self.goto(p)),
            None => None,
        }
    }

    /// Goes up to the parent directory, if there is one, remembering the
    /// directory left. Returns the directory left (the middle column's
    /// cursor goes to it) and what the left column then shows: the new
    /// directory's parent, or nothing at the root.
    pub fn go_back(&mut self) -> (r: Option<(File, Option<File>)>)
        ensures
            match path_parent(old(self).cwd.path@) {
                Some(p) => (r matches Some((sel, left)) && sel == old(self).cwd && parent_dir(
                    left,
                    p,
                )) && dir_file(final(self).cwd, p) && final(self).prev_cwd == Some(old(self).cwd),
                None => r is None && final(self).cwd == old(self).cwd && final(self).prev_cwd == old(
                    self).prev_cwd,
            },
    {
        match self.cwd.parent_as_file() {
            Some(new_cwd) => {
                let left = new_cwd.parent_as_file();
                let old_cwd = self.cwd.clone_file();
                self.cwd = new_cwd;
                self.prev_cwd = Some(old_cwd.clone_file());
                Some((old_cwd, left))
            },
            None => None,
        }
    }

    /// Where picking a bookmark starts: the directory shown before, else
    /// the one shown.
    pub fn bookmark_base(&self) -> (r: String)
        ensures
            r@ == match self.prev_cwd {
                Some(p) => p.path@,
                None => self.cwd.path@,
            },
    {
        match &self.prev_cwd {
            Some(p) => p.path.clone(),
            None => self.cwd.path.clone(),
        }
    }

    /// Enters the chosen entry `file`: a directory that may be read (or
    /// whose permissions could not be told, `readable` being `None`) is
    /// gone to; one that may not is refused; anything else is to be opened.
    pub fn enter_dir(&mut self, file: &File, readable: Option<bool>) -> (r: EnterStep)
        ensures
            file.kind == Kind::Directory && readable != Some(false) ==> (r matches EnterStep::Entered(
                left,
            ) && parent_dir(left, file.path@)) && final(self).cwd@ == file@
                && final(self).prev_cwd == Some(old(self).cwd),
            file.kind == Kind::Directory && readable == Some(false) ==> (r matches EnterStep::Denied(
                m,
            ) && m@ == fg_code(1) + "Stop right there, cowboy! Check your permisions!"@)
                && final(self).cwd == old(self).cwd && final(self).prev_cwd == old(self).prev_cwd,
            file.kind != Kind::Directory ==> (r matches EnterStep::Open(n) && opt_view(n)
                == crate::files::path_file_name(file.path@)) && final(self).cwd == old(self).cwd
                && final(self).prev_cwd == old(self).prev_cwd,
    {
        if file.kind == Kind::Directory {
            if readable == Some(false) {
                let mut m = color_red();
                m.append("Stop right there, cowboy! Check your permisions!");
                return EnterStep::Denied(m);
            }
            let dir = file.clone_file();
            let left = self.goto(dir);
            EnterStep::Entered(left)
        } else {
            EnterStep::Open(file.file_name())
        }
    }
}

impl Files {
    /// The position (in `files`) of the first shown directory after index
    /// `pos` of the shown list: where moving the left column down goes.
    pub fn next_dir_after(&self, pos: usize) -> (r: Option<usize>)
        ensures
            match r {
                Some(k) => {
                    &&& (k as int) < self.files@.len()
                    &&& exists|i: int|
                        pos < i < self.shown_view().len() && self.shown_view()[i] == k as int && (
                        forall|j: int|
                            pos < j < i ==> self.files@[#[trigger] self.shown_view()[j]].kind
                                != Kind::Directory)
                    &&& self.files@[k as int].kind == Kind::Directory
                },
                None => forall|j: int|
                    pos < j < self.shown_view().len() ==> self.files@[#[trigger] self.shown_view()[j]].kind
                        != Kind::Directory,
            },
    {
        let v = self.visible_positions();
        let ghost sv = self.shown_view();
        proof {
            lemma_shown_positions_bound(
                views(self.files@),
                self.filter_view(),
                self.filter_selected,
                self.show_hidden,
            );
        }
        assert(v@.len() == sv.len()) by {
            assert(v@.map_values(|p: usize| p as int).len() == v@.len());
        }
        if pos >= v.len() {
            return None;
        }
        let mut i: usize = pos + 1;
        while i < v.len()
            invariant
                pos < i <= v@.len(),
                v@.len() == sv.len(),
                v@.map_values(|p: usize| p as int) == sv,
                sv == self.shown_view(),
                forall|k: int| 0 <= k < sv.len() ==> 0 <= #[trigger] sv[k] < self.files@.len(),
                forall|j: int| pos < j < i ==> self.files@[#[trigger] sv[j]].kind != Kind::Directory,
            decreases v.len() - i,
        {
            let p = v[i];
            assert(sv[i as int] == p as int);
            if self.files[p].kind == Kind::Directory {
                return Some(p);
            }
            i += 1;
        }
        None
    }

    /// The position (in `files`) of the last shown directory before index
    /// `pos` of the shown list: where moving the left column up goes.
    pub fn prev_dir_before(&self, pos: usize) -> (r: Option<usize>)
        ensures
            match r {
                Some(k) => {
                    &&& (k as int) < self.files@.len()
                    &&& exists|i: int|
                        0 <= i < pos && i < self.shown_view().len() && self.shown_view()[i] == k as int
                            && (forall|j: int|
                            i < j < pos && j < self.shown_view().len() ==> self.files@[#[trigger] self.shown_view()[j]].kind
                                != Kind::Directory)
                    &&& self.files@[k as int].kind == Kind::Directory
                },
                None => forall|j: int|
                    0 <= j < pos && j < self.shown_view().len() ==> self.files@[#[trigger] self.shown_view()[j]].kind
                        != Kind::Directory,
            },
    {
        let v = self.visible_positions();
        let ghost sv = self.shown_view();
        proof {
            lemma_shown_positions_bound(
                views(self.files@),
                self.filter_view(),
                self.filter_selected,
                self.show_hidden,
            );
        }
        assert(v@.len() == sv.len()) by {
            assert(v@.map_values(|p: usize| p as int).len() == v@.len());
        }
        let mut i: usize = if pos < v.len() {
            pos
        } else {
            v.len()
        };
        while i > 0
            invariant
                i <= pos,
                i <= v@.len(),
                v@.len() == sv.len(),
                v@.map_values(|p: usize| p as int) == sv,
                sv == self.shown_view(),
                forall|k: int| 0 <= k < sv.len() ==> 0 <= #[trigger] sv[k] < self.files@.len(),
                forall|j: int| i <= j < pos && j < sv.len() ==> self.files@[#[trigger] sv[j]].kind
                    != Kind::Directory,
            decreases i,
        {
            let p = v[i - 1];
            assert(sv[i - 1] == p as int);
            if self.files[p].kind == Kind::Directory {
                return Some(p);
            }
            i -= 1;
        }
        None
    }
}


/// The typed directory jump: what was shown when it began, and the filter
/// and chosen file of the directory it is in, saved to be put back when it
/// leaves that directory.
#[derive(Debug)]
pub struct TurboCd {
    pub orig_dir: File,
    pub orig_filter: Option<String>,
    pub orig_selected: File,
    pub filter: Option<Option<String>>,
    pub selected: Option<File>,
}

/// What the directory jump does on an event of its prompt.
#[derive(Debug)]
pub enum TurboStep {
    /// Nothing; the prompt goes on.
    Wait,
    /// Put back the saved filter (if one was saved) and stop.
    Finish(Option<Option<String>>),
    /// Put back the saved filter and chosen file, go up a directory, empty
    /// the prompt, and go on.
    GoBack(Option<Option<String>>, Option<File>),
    /// Put back the saved filter and chosen file, go into the directory,
    /// empty the prompt, and go on.
    Enter(Option<Option<String>>, Option<File>, File),
    /// Filter the directory by the input and go on.
    SetFilter(String),
    /// Go back to where the jump began, with the filter and chosen file of
    /// then, and stop.
    Cancel(File, Option<String>, File),
    /// Move the cursor down (then `note_selection`) and go on.
    CycleNext,
    /// Move the cursor up (then `note_selection`) and go on.
    CyclePrev,
}

fn clone_opt(s: &Option<String>) -> (r: Option<String>)
    ensures
        r == *s,
{
    match s {
        Some(x) => Some(x.clone()),
        None => None,
    }
}

impl TurboCd {
    /// Starts in `dir`, whose filter is `filter` and chosen file `selected`.
    pub fn new(dir: File, filter: Option<String>, selected: File) -> (r: TurboCd)
        ensures
            r.orig_dir == dir,
            r.orig_filter == filter,
            r.orig_selected == selected,
            r.filter == Some(filter),
            r.selected == Some(selected),
    {
        let f2 = clone_opt(&filter);
        let s2 = selected.clone_file();
        TurboCd { orig_dir: dir, orig_filter: filter, orig_selected: selected, filter: Some(f2), selected: Some(s2) }
    }

    /// The cursor moved to `file` by cycling: that is the file to put back.
    pub fn note_selection(&mut self, file: File)
        ensures
            final(self).selected == Some(file),
            final(self).filter == old(self).filter,
            final(self).orig_dir == old(self).orig_dir,
            final(self).orig_filter == old(self).orig_filter,
            final(self).orig_selected == old(self).orig_selected,
    {
        self.selected = Some(file);
    }

    /// Decides on an event of the prompt, in a directory whose filter is
    /// `filter` and whose chosen file is `current`: `.` and `..` alone do
    /// nothing; `../` goes up; another input ending in `/` goes into the
    /// chosen file where it is a directory; other input filters the
    /// directory, its filter and chosen file saved first (where none are
    /// saved); finishing puts the filter back; giving up goes back to the
    /// start.
    pub fn step(&mut self, event: &MiniBufferEvent, filter: Option<String>, current: &File) -> (r: TurboStep)
        ensures
            final(self).orig_dir == old(self).orig_dir,
            final(self).orig_filter == old(self).orig_filter,
            final(self).orig_selected == old(self).orig_selected,
            match *event {
                MiniBufferEvent::Done(_) | MiniBufferEvent::Empty => (r matches TurboStep::Finish(f)
                    && f == old(self).filter) && final(self).filter is None && final(self).selected
                    == old(self).selected,
                MiniBufferEvent::NewInput(input) => if input@ == "."@ || input@ == ".."@ {
                    r is Wait && final(self).filter == old(self).filter && final(self).selected
                        == old(self).selected
                } else if input@.len() > 0 && input@.last() == '/' {
                    if input@ == "../"@ {
                        (r matches TurboStep::GoBack(f, s) && f == old(self).filter && s == old(
                            self).selected) && final(self).filter is None && final(self).selected is None
                    } else if current.kind == Kind::Directory {
                        (r matches TurboStep::Enter(f, s, d) && f == old(self).filter && s == old(
                            self).selected && d == *current) && final(self).filter is None
                            && final(self).selected is None
                    } else {
                        r is Wait && final(self).filter == old(self).filter && final(self).selected
                            == old(self).selected
                    }
                } else {
                    (r matches TurboStep::SetFilter(s) && s == input) && final(self).filter == (
                    if old(self).filter is None {
                        Some(filter)
                    } else {
                        old(self).filter
                    }) && final(self).selected == (if old(self).selected is None {
                        Some(*current)
                    } else {
                        old(self).selected
                    })
                },
                MiniBufferEvent::Cancelled => (r matches TurboStep::Cancel(d, f, s) && d == old(
                    self).orig_dir && f == old(self).orig_filter && s == old(self).orig_selected)
                    && final(self).filter == old(self).filter && final(self).selected == old(
                    self).selected,
                MiniBufferEvent::CycleNext => r is CycleNext && final(self).filter == old(self).filter
                    && final(self).selected == old(self).selected,
                MiniBufferEvent::CyclePrev => r is CyclePrev && final(self).filter == old(self).filter
                    && final(self).selected == old(self).selected,
            },
    {
        match event {
            MiniBufferEvent::Done(_) | MiniBufferEvent::Empty => TurboStep::Finish(self.filter.take()),
            MiniBufferEvent::NewInput(input) => {
                let cs = str_to_chars(input.as_str());
                proof {
                    reveal_strlit(".");
                    reveal_strlit("..");
                    reveal_strlit("../");
                }
                let n = cs.len();
                if n == 1 && cs[0] == '.' {
                    assert(cs@ =~= "."@);
                    return TurboStep::Wait;
                }
                if n == 2 && cs[0] == '.' && cs[1] == '.' {
                    assert(cs@ =~= ".."@);
                    return TurboStep::Wait;
                }
                assert(cs@ != "."@ && cs@ != ".."@) by {
                    if cs@ == "."@ {
                        assert(cs@[0] == '.');
                    }
                    if cs@ == ".."@ {
                        assert(cs@[0] == '.' && cs@[1] == '.');
                    }
                }
                if n > 0 && cs[n - 1] == '/' {
                    if n == 3 && cs[0] == '.' && cs[1] == '.' {
                        assert(cs@ =~= "../"@);
                        TurboStep::GoBack(self.filter.take(), self.selected.take())
                    } else {
                        assert(cs@ != "../"@) by {
                            if cs@ == "../"@ {
                                assert(cs@[0] == '.' && cs@[1] == '.');
                            }
                        }
                        if current.kind == Kind::Directory {
                            TurboStep::Enter(self.filter.take(), self.selected.take(), current.clone_file())
                        } else {
                            TurboStep::Wait
                        }
                    }
                } else {
                    if self.filter.is_none() {
                        self.filter = Some(filter);
                    }
                    if self.selected.is_none() {
                        self.selected = Some(current.clone_file());
                    }
                    TurboStep::SetFilter(input.clone())
                }
            },
            MiniBufferEvent::Cancelled => TurboStep::Cancel(
                self.orig_dir.clone_file(),
                clone_opt(&self.orig_filter),
                self.orig_selected.clone_file(),
            ),
            MiniBufferEvent::CycleNext => TurboStep::CycleNext,
            MiniBufferEvent::CyclePrev => TurboStep::CyclePrev,
        }
    }
}


/// `s` right-aligned in `width` columns, as `{:width$}` pads a number.
pub open spec fn pad_left(s: Seq<char>, width: int) -> Seq<char> {
    if s.len() >= width {
        s
    } else {
        Seq::new((width - s.len()) as nat, |i: int| ' ') + s
    }
}

/// The footer's counter: the cursor's line (from one) and the number of
/// lines, both padded to the width of the number of lines.
pub open spec fn counter_text(line: nat, count: nat) -> Seq<char> {
    let w = decimal(count).len() as int;
    pad_left(decimal(line), w) + "/"@ + pad_left(decimal(count), w)
}

/// The file's details on the footer: permissions, owner and group, time of
/// change in the header's colors, and the link target in yellow.
pub open spec fn footer_status(
    perms: Seq<char>,
    user: Seq<char>,
    group: Seq<char>,
    mtime: Seq<char>,
    target: Option<Seq<char>>,
) -> Seq<char> {
    perms + " "@ + user + ":"@ + group + " "@ + fg_code(7) + bg_code(4) + mtime + " "@ + fg_code(3)
        + match target {
        Some(t) => "--> "@ + t,
        None => Seq::<char>::empty(),
    }
}

/// The device of a file system as the footer shows it (nothing where there
/// is none).
pub open spec fn dev_text(fs: Filesystem) -> Seq<char> {
    match last_component(fs.fs_mounted_from@) {
        Some((n, true)) => n + ": "@,
        _ => Seq::<char>::empty(),
    }
}

/// The file system's room on the footer: device, free and total size (as
/// written by `free` and `total`).
pub open spec fn space_text(fs: Filesystem, free: Seq<char>, total: Seq<char>) -> Seq<char> {
    dev_text(fs) + free + " / "@ + total
}

/// The permissions on the footer (`NOPERMS` where they are not known).
pub open spec fn perms_text(f: File) -> Seq<char> {
    match f.meta {
        Some(m) => permission_text(m.mode),
        None => "NOPERMS"@,
    }
}

/// Where the footer's parts fit: the counter and the file system's room (its
/// width counted in bytes) in the row below the list.
pub open spec fn footer_fits(c: Coordinates, counter: Seq<char>, space: Seq<char>) -> bool {
    let xsize = c.size.0.0 as int;
    let count_xpos = xsize - counter.len();
    let space_xpos = count_xpos - encode_utf8(space).len() - 5;
    let count_ypos = c.position.0.1 + c.size.0.1;
    &&& xsize >= 1
    &&& space_xpos >= 0
    &&& count_ypos <= u16::MAX
    &&& !(space_xpos == 0 && count_ypos == 0)
}

/// The footer line: the file's details fitted to the width less one, then
/// at the bottom right the file system's room in orange and the counter.
pub open spec fn footer_text(c: Coordinates, status: Seq<char>, counter: Seq<char>, space: Seq<char>) -> Seq<char> {
    let xsize = c.size.0.0 as int;
    let count_xpos = xsize - counter.len();
    let space_xpos = count_xpos - encode_utf8(space).len() - 5;
    let count_ypos = c.position.0.1 + c.size.0.1;
    sized_text(status, xsize - 1) + fg_code(7) + bg_code(4) + goto_code(
        space_xpos as u16,
        count_ypos as u16,
    ) + fg_code(220) + space + fg_code(7) + bg_code(4) + " | "@ + counter
}

fn append_str(out: &mut String, s: &str)
    ensures
        final(out)@ == old(out)@ + s@,
{
    out.append(s);
}

fn spaces_then(n: usize, s: &Vec<char>) -> (r: Vec<char>)
    ensures
        r@ == Seq::new(n as nat, |i: int| ' ') + s@,
{
    let mut out: Vec<char> = Vec::new();
    let mut i: usize = 0;
    while i < n
        invariant
            i <= n,
            out@ == Seq::new(i as nat, |k: int| ' '),
        decreases n - i,
    {
        out.push(' ');
        i += 1;
        assert(out@ =~= Seq::new(i as nat, |k: int| ' '));
    }
    let mut k: usize = 0;
    let ghost start = out@;
    while k < s.len()
        invariant
            k <= s@.len(),
            out@ == start + s@.take(k as int),
        decreases s.len() - k,
    {
        out.push(s[k]);
        k += 1;
        assert(out@ =~= start + s@.take(k as int));
    }
    assert(s@.take(k as int) =~= s@);
    out
}

fn padded_decimal(n: usize, width: usize) -> (r: Vec<char>)
    ensures
        r@ == pad_left(decimal(n as nat), width as int),
{
    let mut d: Vec<char> = Vec::new();
    push_decimal(&mut d, n);
    assert(d@ =~= decimal(n as nat));
    if d.len() >= width {
        d
    } else {
        spaces_then(width - d.len(), &d)
    }
}

/// The footer's counter for the cursor on line `selection` (from zero) of
/// `count` lines.
pub fn counter(selection: usize, count: usize) -> (r: String)
    requires
        selection < usize::MAX,
    ensures
        r@ == counter_text((selection + 1) as nat, count as nat),
{
    let mut c: Vec<char> = Vec::new();
    push_decimal(&mut c, count);
    assert(c@ =~= decimal(count as nat));
    let w = c.len();
    let mut out = padded_decimal(selection + 1, w);
    out.push('/');
    let p = padded_decimal(count, w);
    let ghost start = out@;
    let mut k: usize = 0;
    while k < p.len()
        invariant
            k <= p@.len(),
            out@ == start + p@.take(k as int),
        decreases p.len() - k,
    {
        out.push(p[k]);
        k += 1;
        assert(out@ =~= start + p@.take(k as int));
    }
    assert(p@.take(k as int) =~= p@);
    proof {
        reveal_strlit("/");
    }
    assert(out@ =~= pad_left(decimal((selection + 1) as nat), w as int) + "/"@ + pad_left(
        decimal(count as nat),
        w as int,
    ));
    chars_to_string(&out)
}

/// The file's details for the footer.
pub fn status_of(file: &File, user: &str, group: &str, mtime: &str, target: &Option<String>) -> (r: String)
    ensures
        r@ == footer_status(perms_text(*file), user@, group@, mtime@, opt_view(*target)),
{
    let mut out = match file.pretty_print_permissions() {
        Some(p) => p,
        None => String::from_str("NOPERMS"),
    };
    append_str(&mut out, " ");
    append_str(&mut out, user);
    append_str(&mut out, ":");
    append_str(&mut out, group);
    append_str(&mut out, " ");
    let hc = header_color();
    append_str(&mut out, hc.as_str());
    append_str(&mut out, mtime);
    append_str(&mut out, " ");
    let y = color_yellow();
    append_str(&mut out, y.as_str());
    match target {
        Some(t) => {
            append_str(&mut out, "--> ");
            append_str(&mut out, t.as_str());
        },
        None => {},
    }
    out
}

/// The file system's room for the footer, its free and total size written
/// as `free` and `total`.
pub fn space_line(fs: &Filesystem, free: &str, total: &str) -> (r: String)
    ensures
        r@ == space_text(*fs, free@, total@),
{
    let mut out = match fs.get_dev() {
        Some(d) => d,
        None => String::new(),
    };
    append_str(&mut out, free);
    append_str(&mut out, " / ");
    append_str(&mut out, total);
    out
}

/// The file system's room for the footer, with its sizes as bytesize writes
/// them (which text that is, is left to bytesize).
pub fn space_of(fs: &Filesystem) -> (r: String)
    ensures
        exists|free: Seq<char>, total: Seq<char>| r@ == space_text(*fs, free, total),
{
    let free = fs.get_free();
    let total = fs.get_total();
    let r = space_line(fs, free.as_str(), total.as_str());
    assert(r@ == space_text(*fs, free@, total@));
    r
}

/// The browser's footer for the chosen `file` (its owner, group, time of
/// change and link target as given), the cursor on line `selection` of
/// `count`, and `space` the room on its file system (see `space_of`).
pub fn footer_line(
    c: &Coordinates,
    file: &File,
    user: &str,
    group: &str,
    mtime: &str,
    target: &Option<String>,
    selection: usize,
    count: usize,
    space: &str,
) -> (r: String)
    requires
        selection < usize::MAX,
        footer_fits(*c, counter_text((selection + 1) as nat, count as nat), space@),
        ansi_cuttable(footer_status(perms_text(*file), user@, group@, mtime@, opt_view(*target))),
    ensures
        r@ == footer_text(
            *c,
            footer_status(perms_text(*file), user@, group@, mtime@, opt_view(*target)),
            counter_text((selection + 1) as nat, count as nat),
            space@,
        ),
{
    let status = status_of(file, user, group, mtime, target);
    let cnt = counter(selection, count);
    let xsize = c.size.0.0;
    let count_xpos = xsize - (cnt.unicode_len() as u16);
    let space_xpos = count_xpos - (space.len() as u16) - 5;
    let count_ypos = c.position.0.1 + c.size.0.1;
    let mut out = sized_string_u(status.as_str(), (xsize - 1) as usize);
    let hc = header_color();
    append_str(&mut out, hc.as_str());
    let g = goto_xy(space_xpos, count_ypos);
    append_str(&mut out, g.as_str());
    let o = color_orange();
    append_str(&mut out, o.as_str());
    append_str(&mut out, space);
    append_str(&mut out, hc.as_str());
    append_str(&mut out, " | ");
    append_str(&mut out, cnt.as_str());
    out
}

/// `footer_line` where the file's details can be fitted, and `None` where
/// one of their escape codes would split a character.
pub fn try_footer_line(
    c: &Coordinates,
    file: &File,
    user: &str,
    group: &str,
    mtime: &str,
    target: &Option<String>,
    selection: usize,
    count: usize,
    space: &str,
) -> (r: Option<String>)
    requires
        selection < usize::MAX,
        footer_fits(*c, counter_text((selection + 1) as nat, count as nat), space@),
    ensures
        match r {
            Some(s) => ansi_cuttable(footer_status(perms_text(*file), user@, group@, mtime@, opt_view(*target)))
                && s@ == footer_text(
                *c,
                footer_status(perms_text(*file), user@, group@, mtime@, opt_view(*target)),
                counter_text((selection + 1) as nat, count as nat),
                space@,
            ),
            None => !ansi_cuttable(footer_status(perms_text(*file), user@, group@, mtime@, opt_view(*target))),
        },
{
    let status = status_of(file, user, group, mtime, target);
    match try_sized_string_u(status.as_str(), 0) {
        Some(_) => Some(footer_line(c, file, user, group, mtime, target, selection, count, space)),
        None => None,
    }
}

/// A path as the header shows it: one below the home directory `home`
/// written from `~`, any other as it is.
pub open spec fn short_path_text(path: Seq<char>, home: Seq<char>) -> Seq<char> {
    match path_strip_prefix(path, home) {
        Some(rest) => path_join("~"@, rest),
        None => path,
    }
}

/// The short form of `path` for the header (see `short_path_text`).
pub fn short_path(path: &str, home: &str) -> (r: String)
    ensures
        r@ == short_path_text(path@, home@),
{
    match strip_prefix_of(path, home) {
        Some(rest) => join_path("~", rest.as_str()),
        None => String::from_str(path),
    }
}

/// The header: the directory shown (its short form, with `~/` and `/` as
/// nothing more than the root's slash), a slash, and the chosen file's name
/// in `color`, cut to fit `xsize` columns.
pub open spec fn header_text(short_path: Seq<char>, color: Seq<char>, name: Seq<char>, xsize: u16) -> Seq<char> {
    let p = if short_path == "~/"@ || short_path == "/"@ {
        short_path.drop_last()
    } else {
        short_path
    };
    sized_prefix(p + "/"@ + color + name, xsize as int)
}

/// The browser's header for the directory `short_path` (as the home
/// directory shortens it) and the chosen `file` drawn in `color`.
pub fn header_line(short_path: &str, color: &str, file: &File, xsize: u16) -> (r: String)
    ensures
        r@ == header_text(short_path@, color@, file.name@, xsize),
{
    let cs = str_to_chars(short_path);
    proof {
        reveal_strlit("~/");
        reveal_strlit("/");
    }
    let n = cs.len();
    let is_home = n == 2 && cs[0] == '~' && cs[1] == '/';
    let is_root = n == 1 && cs[0] == '/';
    assert(is_home <==> cs@ == "~/"@) by {
        if cs@ == "~/"@ {
            assert(cs@[0] == '~' && cs@[1] == '/');
        }
        if is_home {
            assert(cs@ =~= "~/"@);
        }
    }
    assert(is_root <==> cs@ == "/"@) by {
        if cs@ == "/"@ {
            assert(cs@[0] == '/');
        }
        if is_root {
            assert(cs@ =~= "/"@);
        }
    }
    let p = if is_home || is_root {
        crate::text::sub_chars(&cs, 0, n - 1)
    } else {
        crate::text::sub_chars(&cs, 0, n)
    };
    assert(!(is_home || is_root) ==> p@ =~= cs@);
    let mut text = chars_to_string(&p);
    append_str(&mut text, "/");
    append_str(&mut text, color);
    append_str(&mut text, file.name.as_str());
    sized_string(text.as_str(), xsize)
}


/// A path an external chooser printed, taken relative to `cwd` unless it
/// is absolute.
pub open spec fn resolve(cwd: Seq<char>, p: Seq<char>) -> Seq<char> {
    if p.len() > 0 && p[0] == '/' {
        p
    } else {
        path_join(cwd, p)
    }
}

fn resolve_path(cwd: &str, p: &Vec<char>) -> (r: String)
    ensures
        r@ == resolve(cwd@, p@),
{
    if p.len() > 0 && p[0] == '/' {
        chars_to_string(p)
    } else {
        let ps = chars_to_string(p);
        join_path(cwd, ps.as_str())
    }
}

/// The paths an external chooser printed, one per line.
pub fn chosen_paths(cwd: &str, output: &str) -> (r: Vec<String>)
    ensures
        r@.len() == lines(output@).len(),
        forall|i: int| 0 <= i < r@.len() ==> (#[trigger] r@[i])@ == resolve(cwd@, lines(output@)[i]),
{
    let cs = str_to_chars(output);
    let ls = lines_chars(&cs);
    let mut r: Vec<String> = Vec::new();
    let mut i: usize = 0;
    while i < ls.len()
        invariant
            i <= ls@.len(),
            chars_of(ls@) == lines(output@),
            r@.len() == i,
            forall|k: int| 0 <= k < i ==> (#[trigger] r@[k])@ == resolve(cwd@, lines(output@)[k]),
        decreases ls.len() - i,
    {
        assert(ls@[i as int]@ == lines(output@)[i as int]);
        r.push(resolve_path(cwd, &ls[i]));
        i += 1;
    }
    r
}

/// The directory an external chooser printed: its output without the
/// newlines at the end.
pub fn chosen_dir(cwd: &str, output: &str) -> (r: String)
    ensures
        r@ == resolve(cwd@, trim_end_matches(output@, '\n')),
{
    let cs = str_to_chars(output);
    let t = trim_end_matches_chars(&cs, '\n');
    resolve_path(cwd, &t)
}

/// What to do with what an external chooser printed.
#[derive(Debug)]
pub enum SelectPlan {
    /// One path: go to it (a directory) or to its directory, choosing it.
    One(String),
    /// Any other number: select each of them.
    Many(Vec<String>),
}

/// The plan for what an external chooser printed, in `cwd`.
pub fn select_plan(cwd: &str, output: &str) -> (r: SelectPlan)
    ensures
        lines(output@).len() == 1 ==> (r matches SelectPlan::One(p) && p@ == resolve(
            cwd@,
            lines(output@)[0],
        )),
        lines(output@).len() != 1 ==> (r matches SelectPlan::Many(ps) && ps@.len() == lines(
            output@,
        ).len() && forall|i: int| 0 <= i < ps@.len() ==> (#[trigger] ps@[i])@ == resolve(
            cwd@,
            lines(output@)[i],
        )),
{
    let mut paths = chosen_paths(cwd, output);
    if paths.len() == 1 {
        let p = paths.remove(0);
        SelectPlan::One(p)
    } else {
        SelectPlan::Many(paths)
    }
}

/// What choosing a single path with the external chooser comes to.
#[derive(Debug)]
pub enum SelectStep {
    /// Show this directory.
    Goto(File),
    /// Show this directory and put the cursor on this file in it.
    GotoAndChoose(File, File),
    /// Nothing to go to; the status line's text.
    Status(String),
    /// Nothing happens.
    Nothing,
}

/// What choosing a single path with the external chooser comes to.
pub open spec fn select_step_is(r: SelectStep, path: Seq<char>, exists: bool, is_dir: bool, is_file: bool) -> bool {
    if !exists {
        r matches SelectStep::Status(m) && m@ == "Can't access path: "@ + path + "!"@
    } else if is_dir {
        r matches SelectStep::Goto(d) && dir_file(d, path)
    } else if is_file {
        match path_parent(path) {
            Some(p) => r matches SelectStep::GotoAndChoose(d, f) && dir_file(d, p) && f.path@ == path
                && f.name@ == name_of_path(path) && f.kind == Kind::File,
            None => r is Nothing,
        }
    } else {
        r is Nothing
    }
}

/// Decides on the one path `path` an external chooser printed, given what
/// the disk says of it: a directory is gone to; a file's directory is gone
/// to and the file chosen there; a path that does not exist is reported;
/// anything else (or a file with no directory) does nothing.
pub fn select_step(path: &str, exists: bool, is_dir: bool, is_file: bool) -> (r: SelectStep)
    ensures
        select_step_is(r, path@, exists, is_dir, is_file),
{
    if !exists {
        let mut m = String::from_str("Can't access path: ");
        m.append(path);
        m.append("!");
        return SelectStep::Status(m);
    }
    if is_dir {
        return SelectStep::Goto(File::new_from_path(path, true));
    }
    if is_file {
        let file = File::new_from_path(path, false);
        return match file.parent_as_file() {
            Some(dir) => SelectStep::GotoAndChoose(dir, file),
            None => SelectStep::Nothing,
        };
    }
    SelectStep::Nothing
}

/// What one of several paths an external chooser printed comes to.
#[derive(Debug)]
pub enum ManyStep {
    /// The path is not there; the status line's text, and the next path.
    Missing(String),
    /// Flip the selection of the file at the path, after going to this
    /// directory where it is not the one shown.
    Toggle(Option<File>),
    /// The path has no directory: the choosing ends.
    Stop,
}

/// Decides on one of several paths `path` an external chooser printed,
/// `cwd` being shown: a path that does not exist is reported and passed
/// over; else its directory is gone to (unless it is shown already) and
/// the file's selection flipped.
pub fn select_many_step(path: &str, exists: bool, cwd: &File) -> (r: ManyStep)
    ensures
        !exists ==> (r matches ManyStep::Missing(m) && m@ == "Can't find: "@ + path@),
        exists ==> match path_parent(path@) {
            None => r is Stop,
            Some(p) => if p == cwd.path@ {
                r matches ManyStep::Toggle(d) && d is None
            } else {
                r matches ManyStep::Toggle(d) && (d matches Some(f) && dir_file(f, p))
            },
        },
{
    if !exists {
        let mut m = String::from_str("Can't find: ");
        m.append(path);
        return ManyStep::Missing(m);
    }
    let file = File::new_from_path(path, false);
    match file.parent_as_file() {
        None => ManyStep::Stop,
        Some(dir) => {
            if chars_eq(&str_to_chars(dir.path.as_str()), &str_to_chars(cwd.path.as_str())) {
                ManyStep::Toggle(None)
            } else {
                ManyStep::Toggle(Some(dir))
            }
        },
    }
}

impl Files {
    /// Flips the selection of the first shown file at `path`; its position,
    /// or `None` (and nothing changed) where no shown file is there.
    pub fn toggle_file_with_path(&mut self, path: &str) -> (r: Option<usize>)
        ensures
            match r {
                Some(p) => {
                    &&& p < old(self).files@.len()
                    &&& same_path(old(self).files@[p as int].path@, path@)
                    &&& old(self).shown_view().contains(p as int)
                    &&& views(final(self).files@) == views(old(self).files@).update(
                        p as int,
                        FileView { selected: !old(self).files@[p as int].selected, ..old(self).files@[p as int]@ },
                    )
                },
                None => final(self).files == old(self).files && forall|k: int|
                    0 <= k < old(self).shown_view().len() ==> !same_path(
                        old(self).files@[#[trigger] old(self).shown_view()[k]].path@,
                        path@,
                    ),
            },
            *final(self) == (Files { files: final(self).files, ..*old(self) }),
    {
        match self.find_file_with_path(path) {
            Some(p) => {
                let ghost before = views(self.files@);
                let sel = self.files[p].selected;
                self.files[p].selected = !sel;
                assert(views(self.files@) =~= before.update(
                    p as int,
                    FileView { selected: !old(self).files@[p as int].selected, ..old(self).files@[p as int]@ },
                ));
                Some(p)
            },
            None => None,
        }
    }
}


/// Where a key goes in the browser: zooming the preview toggles the columns
/// while the preview is active and zooms it while the list is; any other
/// key goes to the preview while it is active, else to the browser's own
/// bindings (then the list's, then the preview's).
#[derive(Clone, Copy, Debug, PartialEq, Eq, Structural)]
pub enum KeyRoute {
    ToggleColumns,
    ZoomPreview,
    Preview,
    Browser,
}

/// The route of a key bound (or not) to `action` while column `active` is
/// active.
pub fn key_route(action: Option<FileBrowserAction>, active: Option<usize>) -> (r: KeyRoute)
    ensures
        r == match (action, active) {
            (Some(FileBrowserAction::ZoomPreview), Some(2)) => KeyRoute::ToggleColumns,
            (Some(FileBrowserAction::ZoomPreview), Some(1)) => KeyRoute::ZoomPreview,
            (_, Some(2)) => KeyRoute::Preview,
            _ => KeyRoute::Browser,
        },
{
    match (action, active) {
        (Some(FileBrowserAction::ZoomPreview), Some(2)) => KeyRoute::ToggleColumns,
        (Some(FileBrowserAction::ZoomPreview), Some(1)) => KeyRoute::ZoomPreview,
        (_, Some(2)) => KeyRoute::Preview,
        _ => KeyRoute::Browser,
    }
}

/// Whether the size of `f` comes out as zero without a unit.
pub open spec fn empty_size(f: File) -> bool {
    match f.dirsize {
        Some(d) => d as u32 == 0,
        None => match f.meta {
            None => false,
            Some(m) => crate::files::size_steps(m.size as nat).0 == 0 && crate::files::unit_name(
                crate::files::size_steps(m.size as nat).1,
            ).len() == 0,
        },
    }
}

/// Whether the preview shows the chosen file: not while the list is empty,
/// nor for a file (not a directory) whose size comes out as zero without a
/// unit.
pub fn previews(count: usize, file: &File) -> (r: bool)
    ensures
        r == (count != 0 && !(file.kind != Kind::Directory && empty_size(*file))),
{
    if count == 0 {
        return false;
    }
    proof {
        reveal_strlit("");
    }
    if !file.is_dir() {
        match file.calculate_size() {
            Some((size, unit)) => {
                if size == 0 && unit.is_empty() {
                    return false;
                }
            },
            None => {},
        }
    }
    true
}

fn push_str(out: &mut String, s: &str)
    ensures
        final(out)@ == old(out)@ + s@,
{
    out.append(s);
}

/// The quoted paths of the selected files, each followed by a space.
pub open spec fn quoted_paths(fs: Seq<File>) -> Seq<char>
    decreases fs.len(),
{
    if fs.len() == 0 {
        Seq::empty()
    } else {
        quoted_paths(fs.drop_last()) + "\""@ + fs.last().path@ + "\" "@
    }
}

/// What quitting with the directory writes for the shell: the directory,
/// the chosen file and the selected files, as shell variables.
pub open spec fn cwd_file_text(cwd: Seq<char>, selected: Seq<char>, files: Seq<File>) -> Seq<char> {
    "HUNTER_CWD=\""@ + cwd + "\"\nF=\""@ + selected + "\"\nMF=("@ + quoted_paths(files) + ")\n"@
}

/// The text of the file that quitting with the directory leaves.
pub fn cwd_file(cwd: &File, selected: &File, files: &Vec<File>) -> (r: String)
    ensures
        r@ == cwd_file_text(cwd.path@, selected.path@, files@),
{
    let mut out = String::from_str("HUNTER_CWD=\"");
    push_str(&mut out, cwd.path.as_str());
    push_str(&mut out, "\"\nF=\"");
    push_str(&mut out, selected.path.as_str());
    push_str(&mut out, "\"\nMF=(");
    let mut i: usize = 0;
    let ghost start = out@;
    assert(files@.take(0) =~= Seq::<File>::empty());
    while i < files.len()
        invariant
            i <= files@.len(),
            out@ == start + quoted_paths(files@.take(i as int)),
        decreases files.len() - i,
    {
        push_str(&mut out, "\"");
        push_str(&mut out, files[i].path.as_str());
        push_str(&mut out, "\" ");
        assert(files@.take(i + 1).drop_last() =~= files@.take(i as int));
        i += 1;
    }
    assert(files@.take(i as int) =~= files@);
    push_str(&mut out, ")\n");
    out
}


/// The text of the last component of `path`, where it has one.
pub open spec fn last_component_text(path: Seq<char>) -> Option<Seq<char>> {
    match last_component(path) {
        Some((t, _)) => Some(t),
        None => None,
    }
}

fn last_component_str(path: &str) -> (r: Option<String>)
    ensures
        opt_view(r) == last_component_text(path@),
{
    match crate::stats::last_component_of(path) {
        Some((t, _)) => Some(t),
        None => None,
    }
}

/// The names of the tabs: the last component of each tab's directory.
pub fn tab_names(cwds: &Vec<File>) -> (r: Vec<Option<String>>)
    requires
        forall|i: int| 0 <= i < cwds@.len() ==> last_component_text(#[trigger] cwds@[i].path@) is Some,
    ensures
        r@.len() == cwds@.len(),
        forall|i: int| 0 <= i < r@.len() ==> opt_view(#[trigger] r@[i]) == last_component_text(cwds@[i].path@),
{
    let mut r: Vec<Option<String>> = Vec::new();
    let mut i: usize = 0;
    while i < cwds.len()
        invariant
            i <= cwds@.len(),
            r@.len() == i,
            forall|k: int| 0 <= k < i ==> opt_view(#[trigger] r@[k]) == last_component_text(cwds@[k].path@),
        decreases cwds.len() - i,
    {
        r.push(last_component_str(cwds[i].path.as_str()));
        i += 1;
    }
    r
}

/// `tab_names` where each tab's directory has a last component, and `None`
/// where one has none.
pub fn try_tab_names(cwds: &Vec<File>) -> (r: Option<Vec<Option<String>>>)
    ensures
        match r {
            Some(v) => (forall|i: int| 0 <= i < cwds@.len() ==> last_component_text(#[trigger] cwds@[i].path@) is Some)
                && v@.len() == cwds@.len() && forall|i: int| 0 <= i < v@.len() ==> opt_view(#[trigger] v@[i])
                == last_component_text(cwds@[i].path@),
            None => exists|i: int| 0 <= i < cwds@.len() && last_component_text(#[trigger] cwds@[i].path@) is None,
        },
{
    let mut i: usize = 0;
    while i < cwds.len()
        invariant
            i <= cwds@.len(),
            forall|k: int| 0 <= k < i ==> last_component_text(#[trigger] cwds@[k].path@) is Some,
        decreases cwds.len() - i,
    {
        if last_component_str(cwds[i].path.as_str()).is_none() {
            assert(last_component_text(cwds@[i as int].path@) is None);
            return None;
        }
        i += 1;
    }
    Some(tab_names(cwds))
}

} // verus!
