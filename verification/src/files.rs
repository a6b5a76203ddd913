//! The files of a directory: which of them a list shows (hidden files, a
//! name filter, the selection filter), how they are sorted, and what is
//! known of each file (kind, size, permissions, tags, selection).
use vstd::prelude::*;
use crate::dirty::{DirtyBit, Dirtyable};
use crate::listview::Listable;
use crate::term::{color_green, color_red, color_yellow, fg_code, highlight_color};
use crate::text::{chars_eq, chars_of, chars_to_string, str_to_chars};
use rayon::slice::ParallelSliceMut;
use std::cmp::Ordering;

verus! {

/// What a list entry is.
#[derive(Clone, Copy, Debug, PartialEq, Eq, Structural)]
pub enum Kind {
    Directory,
    File,
    /// Stands in for the files of an empty (or fully filtered) directory.
    Placeholder,
}

/// The orders the files can be sorted in.
#[derive(Clone, Copy, Debug, PartialEq, Eq, Structural, Hash)]
pub enum SortBy {
    Name,
    Size,
    MTime,
}

impl SortBy {
    /// The order's name as the status line shows it.
    pub fn to_string(&self) -> (r: String)
        ensures
            r@ == match self {
                SortBy::Name => "name"@,
                SortBy::Size => "size"@,
                SortBy::MTime => "mtime"@,
            },
    {
        match self {
            SortBy::Name => String::from_str("name"),
            SortBy::Size => String::from_str("size"),
            SortBy::MTime => String::from_str("mtime"),
        }
    }
}

/// What the file system tells of a file.
#[derive(Clone, Copy, Debug, PartialEq, Eq, Structural)]
pub struct Meta {
    pub size: u64,
    pub mtime: i64,
    pub mode: u32,
    pub uid: u32,
    pub gid: u32,
}

/// A file (or directory) of a list.
#[derive(Clone, Debug)]
pub struct File {
    pub name: String,
    pub path: String,
    pub hidden: bool,
    pub kind: Kind,
    pub dirsize: Option<usize>,
    pub target: Option<String>,
    pub meta: Option<Meta>,
    pub meta_processed: bool,
    pub selected: bool,
    pub tag: Option<bool>,
}

pub open spec fn opt_view(o: Option<String>) -> Option<Seq<char>> {
    match o {
        Some(s) => Some(s@),
        None => None,
    }
}

/// A user's or group's name in green where it is the running user's own
/// (`current`), else in red.
pub open spec fn owner_label(name: Seq<char>, current: Seq<char>) -> Seq<char> {
    (if name == current {
        fg_code(2)
    } else {
        fg_code(1)
    }) + name
}

fn colored_name(name: &str, current: &str) -> (r: String)
    ensures
        r@ == owner_label(name@, current@),
{
    let mut out = if chars_eq(&str_to_chars(name), &str_to_chars(current)) {
        color_green()
    } else {
        color_red()
    };
    out.append(name);
    out
}

/// What a list entry holds, as plain values.
pub struct FileView {
    pub name: Seq<char>,
    pub path: Seq<char>,
    pub hidden: bool,
    pub kind: Kind,
    pub dirsize: Option<usize>,
    pub target: Option<Seq<char>>,
    pub meta: Option<Meta>,
    pub meta_processed: bool,
    pub selected: bool,
    pub tag: Option<bool>,
}

impl View for File {
    type V = FileView;

    open spec fn view(&self) -> FileView {
        FileView {
            name: self.name@,
            path: self.path@,
            hidden: self.hidden,
            kind: self.kind,
            dirsize: self.dirsize,
            target: opt_view(self.target),
            meta: self.meta,
            meta_processed: self.meta_processed,
            selected: self.selected,
            tag: self.tag,
        }
    }
}

/// The views of a list of files.
pub open spec fn views(s: Seq<File>) -> Seq<FileView> {
    s.map_values(|f: File| f@)
}

impl PartialEq for File {
    /// Two files are the same file when their paths are the same.
    fn eq(&self, other: &File) -> (r: bool) {
        paths_equal(self.path.as_str(), other.path.as_str())
    }
}

impl vstd::std_specs::cmp::PartialEqSpecImpl for File {
    open spec fn obeys_eq_spec() -> bool {
        true
    }

    open spec fn eq_spec(&self, other: &File) -> bool {
        same_path(self.path@, other.path@)
    }
}

/// Whether two paths are the same path, as `Path`'s `==` decides: component
/// by component, so `a/b/` and `a/b` are the same.
pub uninterp spec fn same_path(a: Seq<char>, b: Seq<char>) -> bool;

/// `Path`'s `==`; the result is named `same_path`. As `Path` is `Eq`, a
/// path is the same as itself.
#[verifier::external_body]
pub(crate) fn paths_equal(a: &str, b: &str) -> (r: bool)
    ensures
        r == same_path(a@, b@),
        a@ == b@ ==> r,
{
    std::path::Path::new(a) == std::path::Path::new(b)
}

/// The name of the last component of `path`, as `Path::file_name` gives it.
pub uninterp spec fn path_file_name(path: Seq<char>) -> Option<Seq<char>>;

/// `Path::file_name` of `path`; its result is named `path_file_name`.
#[verifier::external_body]
fn file_name_of(path: &str) -> (r: Option<String>)
    ensures
        match r {
            Some(s) => path_file_name(path@) == Some(s@),
            None => path_file_name(path@) is None,
        },
{
    std::path::Path::new(path).file_name().map(|n| n.to_string_lossy().to_string())
}

/// The path without its last component, as `Path::parent` gives it.
pub uninterp spec fn path_parent(path: Seq<char>) -> Option<Seq<char>>;

/// `Path::parent` of `path`; its result is named `path_parent`.
#[verifier::external_body]
fn parent_of(path: &str) -> (r: Option<String>)
    ensures
        opt_view(r) == path_parent(path@),
{
    std::path::Path::new(path).parent().map(|p| p.to_string_lossy().to_string())
}

/// `path` relative to `base`, as `Path::strip_prefix` gives it (`None`
/// where `base` is not a prefix).
pub uninterp spec fn path_strip_prefix(path: Seq<char>, base: Seq<char>) -> Option<Seq<char>>;

/// `Path::strip_prefix`; its result is named `path_strip_prefix`.
#[verifier::external_body]
pub(crate) fn strip_prefix_of(path: &str, base: &str) -> (r: Option<String>)
    ensures
        opt_view(r) == path_strip_prefix(path@, base@),
{
    std::path::Path::new(path).strip_prefix(base).ok().map(|p| p.to_string_lossy().to_string())
}

/// `p` joined onto `base`, as `Path::join` gives it.
pub uninterp spec fn path_join(base: Seq<char>, p: Seq<char>) -> Seq<char>;

/// `Path::join`; its result is named `path_join`.
#[verifier::external_body]
pub(crate) fn join_path(base: &str, p: &str) -> (r: String)
    ensures
        r@ == path_join(base@, p@),
{
    std::path::Path::new(base).join(p).to_string_lossy().to_string()
}

/// Whether `s` starts with a dot.
pub open spec fn dotted(s: Seq<char>) -> bool {
    s.len() > 0 && s[0] == '.'
}

/// The name a file at `path` gets: its file name, or `/` where it has none.
pub open spec fn name_of_path(path: Seq<char>) -> Seq<char> {
    match path_file_name(path) {
        Some(n) => n,
        None => "/"@,
    }
}

/// The size of a file in the largest unit (KB, MB, ...) that leaves more
/// than 1024 of it, and the number of times it was divided.
pub open spec fn size_steps(size: nat) -> (nat, nat)
    decreases size,
{
    if size > 1024 {
        let (s, u) = size_steps(size / 1024);
        (s, u + 1)
    } else {
        (size, 0)
    }
}

/// The unit after `u` divisions by 1024.
pub open spec fn unit_name(u: nat) -> Seq<char> {
    if u == 0 {
        ""@
    } else if u == 1 {
        " KB"@
    } else if u == 2 {
        " MB"@
    } else if u == 3 {
        " GB"@
    } else if u == 4 {
        " TB"@
    } else if u == 5 {
        " wtf are you doing"@
    } else {
        ""@
    }
}

/// The octal digits of `n`, most significant first, read as a decimal number.
pub open spec fn octal_as_decimal(n: nat) -> nat
    decreases n,
{
    if n < 8 {
        n
    } else {
        octal_as_decimal(n / 8) * 10 + n % 8
    }
}

/// The decimal digits of `n`.
pub open spec fn decimal_digits(n: nat) -> Seq<nat>
    decreases n,
{
    if n < 10 {
        seq![n]
    } else {
        decimal_digits(n / 10).push(n % 10)
    }
}

/// The three permission letters of an octal digit, each with its color.
pub open spec fn perm_triple(d: nat, r: Seq<char>, w: Seq<char>, x: Seq<char>, n: Seq<char>) -> Seq<char> {
    if d == 1 {
        n + n + x
    } else if d == 2 {
        n + w + n
    } else if d == 3 {
        n + w + x
    } else if d == 4 {
        r + n + n
    } else if d == 5 {
        r + n + x
    } else if d == 6 {
        r + w + n
    } else if d == 7 {
        r + w + x
    } else {
        "---"@
    }
}

pub open spec fn perm_text(ds: Seq<nat>, r: Seq<char>, w: Seq<char>, x: Seq<char>, n: Seq<char>) -> Seq<char>
    decreases ds.len(),
{
    if ds.len() == 0 {
        Seq::empty()
    } else {
        perm_text(ds.drop_last(), r, w, x, n) + perm_triple(ds.last(), r, w, x, n)
    }
}

/// Each octal digit of the permissions shows its read bit (4) as `r`, its
/// write bit (2) as `w` and its execute bit (1) as `x`, in that order, and
/// each bit that is not set as the mark for none.
pub proof fn lemma_perm_triple_bits(d: nat, r: Seq<char>, w: Seq<char>, x: Seq<char>, n: Seq<char>)
    requires
        1 <= d <= 7,
    ensures
        perm_triple(d, r, w, x, n) == (if (d / 4) % 2 == 1 {
            r
        } else {
            n
        }) + (if (d / 2) % 2 == 1 {
            w
        } else {
            n
        }) + (if d % 2 == 1 {
            x
        } else {
            n
        }),
{
}

/// The permissions of a file with `mode` as colored `rwx` letters: the mode
/// is written in octal, read as a decimal number, taken modulo 800, and
/// each of its decimal digits shown as three letters.
pub open spec fn permission_text(mode: u32) -> Seq<char> {
    perm_text(
        decimal_digits(octal_as_decimal(mode as nat) % 800),
        fg_code(2) + "r"@,
        fg_code(3) + "w"@,
        fg_code(1) + "x"@,
        fg_code(10) + "-"@,
    )
}

/// The entry that stands in for the files of the empty directory `path`:
/// named `<empty>`, hidden where the directory's own name starts with a dot.
pub open spec fn placeholder_view(path: Seq<char>) -> FileView {
    FileView {
        name: "<empty>"@,
        path: path,
        hidden: dotted(name_of_path(path)),
        kind: Kind::Placeholder,
        dirsize: None,
        target: None,
        meta: None,
        meta_processed: false,
        selected: false,
        tag: None,
    }
}

impl File {
    /// A file named `name` at `path`; `is_dir` tells whether the path is a directory.
    pub fn new(name: &str, path: &str, is_dir: bool) -> (r: File)
        ensures
            r.name@ == name@,
            r.path@ == path@,
            r.hidden == dotted(name@),
            r.kind == (if is_dir { Kind::Directory } else { Kind::File }),
            r.dirsize is None,
            r.target is None,
            r.meta is None,
            !r.meta_processed,
            !r.selected,
            r.tag is None,
    {
        let cs = str_to_chars(name);
        let hidden = cs.len() > 0 && cs[0] == '.';
        File {
            name: String::from_str(name),
            path: String::from_str(path),
            hidden,
            kind: if is_dir {
                Kind::Directory
            } else {
                Kind::File
            },
            dirsize: None,
            target: None,
            meta: None,
            meta_processed: false,
            selected: false,
            tag: None,
        }
    }

    /// The file at `path`, named after its last component (`/` for the root).
    pub fn new_from_path(path: &str, is_dir: bool) -> (r: File)
        ensures
            r.name@ == name_of_path(path@),
            r.path@ == path@,
            r.hidden == dotted(name_of_path(path@)),
            r.kind == (if is_dir { Kind::Directory } else { Kind::File }),
            r.dirsize is None,
            r.target is None,
            r.meta is None,
            !r.meta_processed,
            !r.selected,
            r.tag is None,
    {
        let name = match file_name_of(path) {
            Some(n) => n,
            None => String::from_str("/"),
        };
        File::new(name.as_str(), path, is_dir)
    }

    /// The entry that stands in for the files of the empty directory `path`.
    pub fn new_placeholder(path: &str) -> (r: File)
        ensures
            r@ == placeholder_view(path@),
    {
        let mut file = File::new_from_path(path, false);
        file.name = String::from_str("<empty>");
        file.kind = Kind::Placeholder;
        file
    }

    /// A copy of the file.
    pub fn clone_file(&self) -> (r: File)
        ensures
            r == *self,
    {
        File {
            name: self.name.clone(),
            path: self.path.clone(),
            hidden: self.hidden,
            kind: self.kind,
            dirsize: self.dirsize,
            target: match &self.target {
                Some(t) => Some(t.clone()),
                None => None,
            },
            meta: self.meta,
            meta_processed: self.meta_processed,
            selected: self.selected,
            tag: self.tag,
        }
    }

    /// The last component of the file's path.
    pub fn file_name(&self) -> (r: Option<String>)
        ensures
            opt_view(r) == path_file_name(self.path@),
    {
        file_name_of(self.path.as_str())
    }

    /// The directory the file is in.
    pub fn parent(&self) -> (r: Option<String>)
        ensures
            opt_view(r) == path_parent(self.path@),
    {
        parent_of(self.path.as_str())
    }

    /// The directory the file is in, as a file.
    pub fn parent_as_file(&self) -> (r: Option<File>)
        ensures
            match path_parent(self.path@) {
                Some(p) => r matches Some(f) && f.path@ == p && f.name@ == name_of_path(p)
                    && f.kind == Kind::Directory,
                None => r is None,
            },
    {
        match self.parent() {
            Some(p) => Some(File::new_from_path(p.as_str(), true)),
            None => None,
        }
    }

    /// The directory the file's directory is in.
    pub fn grand_parent(&self) -> (r: Option<String>)
        ensures
            match path_parent(self.path@) {
                Some(p) => opt_view(r) == path_parent(p),
                None => r is None,
            },
    {
        match self.parent() {
            Some(p) => parent_of(p.as_str()),
            None => None,
        }
    }

    /// The file's path relative to `base`: `./` for `base` itself, the
    /// whole path where `base` is no prefix of it.
    pub fn strip_prefix(&self, base: &File) -> (r: String)
        ensures
            r@ == if same_path(self.path@, base.path@) {
                "./"@
            } else {
                match path_strip_prefix(self.path@, base.path@) {
                    Some(p) => p,
                    None => self.path@,
                }
            },
    {
        if paths_equal(self.path.as_str(), base.path.as_str()) {
            return String::from_str("./");
        }
        match strip_prefix_of(self.path.as_str(), base.path.as_str()) {
            Some(p) => p,
            None => self.path.clone(),
        }
    }

    pub fn is_dir(&self) -> (r: bool)
        ensures
            r == (self.kind == Kind::Directory),
    {
        self.kind == Kind::Directory
    }

    pub fn toggle_selection(&mut self)
        ensures
            final(self).selected == !old(self).selected,
            final(self).path == old(self).path,
            final(self).name == old(self).name,
            final(self).kind == old(self).kind,
            final(self).hidden == old(self).hidden,
    {
        self.selected = !self.selected;
    }

    pub fn is_selected(&self) -> (r: bool)
        ensures
            r == self.selected,
    {
        self.selected
    }

    /// Marks the file tagged exactly when `tags` hold a path that is the
    /// same as its own.
    pub fn set_tag_status(&mut self, tags: &[String])
        ensures
            final(self).tag == Some(exists|i: int| 0 <= i < tags@.len() && same_path(#[trigger] tags@[i]@, old(self).path@)),
            final(self).path == old(self).path,
            final(self).selected == old(self).selected,
            final(self).kind == old(self).kind,
    {
        let mut i: usize = 0;
        while i < tags.len()
            invariant
                i <= tags@.len(),
                self.path == old(self).path,
                self.selected == old(self).selected,
                self.kind == old(self).kind,
                forall|k: int| 0 <= k < i ==> !same_path(#[trigger] tags@[k]@, self.path@),
            decreases tags.len() - i,
        {
            if paths_equal(tags[i].as_str(), self.path.as_str()) {
                assert(same_path(tags@[i as int]@, old(self).path@));
                self.tag = Some(true);
                return;
            }
            i += 1;
        }
        self.tag = Some(false);
    }

    /// The size to show for the file and its unit: a directory's number of
    /// entries without unit where it is known, else the size in bytes in the
    /// largest unit that leaves more than 1024 of it; `None` where the
    /// file's metadata is not read yet.
    pub fn calculate_size(&self) -> (r: Option<(u32, &'static str)>)
        ensures
            match self.dirsize {
                Some(d) => r matches Some((n, u)) && n == d as u32 && u@ == ""@,
                None => match self.meta {
                    None => r is None,
                    Some(m) => r matches Some((n, u)) && n == size_steps(m.size as nat).0
                        && u@ == unit_name(size_steps(m.size as nat).1),
                },
            },
    {
        if let Some(dirsize) = self.dirsize {
            return Some((#[verifier::truncate] (dirsize as u32), ""));
        }
        let meta = match self.meta {
            Some(m) => m,
            None => {
                return None;
            },
        };
        let mut unit: u64 = 0;
        let mut size = meta.size;
        assert(pow1024(0) == 1);
        while size > 1024
            invariant
                size_steps(meta.size as nat).0 == size_steps(size as nat).0,
                size_steps(meta.size as nat).1 == size_steps(size as nat).1 + unit,
                size as nat * pow1024(unit as nat) <= meta.size,
            decreases size,
        {
            proof {
                lemma_pow1024_grows(unit as nat);
                assert(size as nat / 1024 * pow1024(unit as nat + 1) <= size as nat * pow1024(
                    unit as nat,
                )) by (nonlinear_arith)
                    requires
                        pow1024(unit as nat + 1) == 1024 * pow1024(unit as nat),
                ;
                lemma_pow_lower(unit as nat);
                assert(pow1024(unit as nat) <= size as nat * pow1024(unit as nat)) by (nonlinear_arith)
                    requires
                        size >= 1,
                ;
            }
            size = size / 1024;
            unit = unit + 1;
        }
        proof {
            reveal_strlit("");
            reveal_strlit(" KB");
        }
        let unit_str: &'static str = if unit == 0 {
            ""
        } else if unit == 1 {
            " KB"
        } else if unit == 2 {
            " MB"
        } else if unit == 3 {
            " GB"
        } else if unit == 4 {
            " TB"
        } else if unit == 5 {
            " wtf are you doing"
        } else {
            ""
        };
        Some((size as u32, unit_str))
    }

    /// Whether the current user may read the file, judged from its mode bits:
    /// the owner's read bit where the user owns it, else the group's read
    /// bit where the user's group is the file's, else the others' read bit.
    /// `None` where the file's metadata is not read yet.
    pub fn is_readable(
        &self,
        current_user: &str,
        current_group: &str,
        file_user: &str,
        file_group: &str,
    ) -> (r: Option<bool>)
        ensures
            match self.meta {
                None => r is None,
                Some(m) => r == Some(
                    (current_user@ == file_user@ && m.mode & 0o400 > 0) || (current_group@
                        == file_group@ && m.mode & 0o040 > 0) || m.mode & 0o004 > 0,
                ),
            },
    {
        let meta = match self.meta {
            Some(m) => m,
            None => {
                return None;
            },
        };
        let perms = meta.mode;
        let user_readable = perms & 0o400;
        let group_readable = perms & 0o040;
        let other_readable = perms & 0o004;
        let cu = str_to_chars(current_user);
        let fu = str_to_chars(file_user);
        let cg = str_to_chars(current_group);
        let fg = str_to_chars(file_group);
        if chars_eq(&cu, &fu) && user_readable > 0 {
            Some(true)
        } else if chars_eq(&cg, &fg) && group_readable > 0 {
            Some(true)
        } else if other_readable > 0 {
            Some(true)
        } else {
            Some(false)
        }
    }

    /// The file's owner as the footer shows it, given the owner's name
    /// (`owner`, looked up from the owner's id) and the name of the user
    /// running the program (`current`): `None` where the file's metadata or
    /// either name is not known.
    pub fn pretty_user(&self, owner: &Option<String>, current: &Option<String>) -> (r: Option<String>)
        ensures
            match (self.meta, opt_view(*owner), opt_view(*current)) {
                (Some(_), Some(n), Some(c)) => r matches Some(s) && s@ == owner_label(n, c),
                _ => r is None,
            },
    {
        if self.meta.is_none() {
            return None;
        }
        match (owner, current) {
            (Some(n), Some(c)) => Some(colored_name(n.as_str(), c.as_str())),
            _ => None,
        }
    }

    /// The file's group as the footer shows it, given the group's name and
    /// the name of the group of the user running the program; `None` where
    /// the file's metadata or either name is not known.
    pub fn pretty_group(&self, group: &Option<String>, current: &Option<String>) -> (r: Option<String>)
        ensures
            match (self.meta, opt_view(*group), opt_view(*current)) {
                (Some(_), Some(n), Some(c)) => r matches Some(s) && s@ == owner_label(n, c),
                _ => r is None,
            },
    {
        if self.meta.is_none() {
            return None;
        }
        match (group, current) {
            (Some(n), Some(c)) => Some(colored_name(n.as_str(), c.as_str())),
            _ => None,
        }
    }

    /// The file's permissions as colored `rwx` letters; `None` where the
    /// file's metadata is not read yet.
    pub fn pretty_print_permissions(&self) -> (r: Option<String>)
        ensures
            match self.meta {
                None => r is None,
                Some(m) => r matches Some(s) && s@ == permission_text(m.mode),
            },
    {
        let meta = match self.meta {
            Some(m) => m,
            None => {
                return None;
            },
        };
        let perms = octal_decimal_mod_800(meta.mode);
        let mut r = str_to_chars(color_green().as_str());
        r.push('r');
        let mut w = str_to_chars(color_yellow().as_str());
        w.push('w');
        let mut x = str_to_chars(color_red().as_str());
        x.push('x');
        let mut n = str_to_chars(highlight_color().as_str());
        n.push('-');
        proof {
            reveal_strlit("r");
            reveal_strlit("w");
            reveal_strlit("x");
            reveal_strlit("-");
        }
        assert(r@ =~= fg_code(2) + "r"@);
        assert(w@ =~= fg_code(3) + "w"@);
        assert(x@ =~= fg_code(1) + "x"@);
        assert(n@ =~= fg_code(10) + "-"@);
        let digits = decimal_digit_vec(perms);
        let mut out: Vec<char> = Vec::new();
        let mut i: usize = 0;
        assert(digits@.take(0) =~= Seq::<u32>::empty());
        while i < digits.len()
            invariant
                i <= digits@.len(),
                digits@.map_values(|d: u32| d as nat) == decimal_digits(perms as nat),
                out@ == perm_text(
                    decimal_digits(perms as nat).take(i as int),
                    r@,
                    w@,
                    x@,
                    n@,
                ),
            decreases digits.len() - i,
        {
            let d = digits[i];
            let ghost ds = decimal_digits(perms as nat);
            assert(ds[i as int] == d as nat);
            assert(ds.take(i + 1).drop_last() =~= ds.take(i as int));
            let ghost before = out@;
            if d == 1 {
                append(&mut out, &n);
                append(&mut out, &n);
                append(&mut out, &x);
            } else if d == 2 {
                append(&mut out, &n);
                append(&mut out, &w);
                append(&mut out, &n);
            } else if d == 3 {
                append(&mut out, &n);
                append(&mut out, &w);
                append(&mut out, &x);
            } else if d == 4 {
                append(&mut out, &r);
                append(&mut out, &n);
                append(&mut out, &n);
            } else if d == 5 {
                append(&mut out, &r);
                append(&mut out, &n);
                append(&mut out, &x);
            } else if d == 6 {
                append(&mut out, &r);
                append(&mut out, &w);
                append(&mut out, &n);
            } else if d == 7 {
                append(&mut out, &r);
                append(&mut out, &w);
                append(&mut out, &x);
            } else {
                proof {
                    reveal_strlit("---");
                }
                out.push('-');
                out.push('-');
                out.push('-');
            }
            assert(out@ =~= before + perm_triple(d as nat, r@, w@, x@, n@));
            i += 1;
        }
        assert(decimal_digits(perms as nat).take(i as int) =~= decimal_digits(perms as nat));
        Some(chars_to_string(&out))
    }
}

pub open spec fn pow1024(u: nat) -> nat
    decreases u,
{
    if u == 0 {
        1
    } else {
        1024 * pow1024((u - 1) as nat)
    }
}

proof fn lemma_pow1024_grows(u: nat)
    ensures
        pow1024(u + 1) == 1024 * pow1024(u),
        pow1024(u) >= 1,
    decreases u,
{
    if u > 0 {
        lemma_pow1024_grows((u - 1) as nat);
    }
}

/// The size shown and its unit stand for the size in bytes rounded down:
/// with no unit the size itself, with `KB` the number of whole 1024 bytes,
/// with `MB` of whole 1024^2 bytes, with `GB` of 1024^3 and with `TB` of 1024^4;
/// and a size of more than 1024 bytes is always divided at least once.
pub proof fn lemma_size_units(size: nat)
    ensures
        size_steps(size).0 <= 1024,
        size_steps(size).1 == 0 ==> size_steps(size).0 == size && size <= 1024 && unit_name(0) == ""@,
        size > 1024 ==> size_steps(size).1 > 0,
        unit_name(size_steps(size).1) == " KB"@ ==> size_steps(size).0 * 1024 <= size < (size_steps(size).0 + 1) * 1024,
        unit_name(size_steps(size).1) == " MB"@ ==> size_steps(size).0 * (1024 * 1024) <= size < (size_steps(size).0 + 1) * (1024 * 1024),
        unit_name(size_steps(size).1) == " GB"@ ==> size_steps(size).0 * (1024 * 1024 * 1024) <= size < (size_steps(size).0 + 1) * (1024 * 1024 * 1024),
        unit_name(size_steps(size).1) == " TB"@ ==> size_steps(size).0 * (1024 * 1024 * 1024 * 1024) <= size < (size_steps(size).0 + 1) * (1024 * 1024 * 1024 * 1024),
{
    reveal_strlit("");
    reveal_strlit(" KB");
    reveal_strlit(" MB");
    reveal_strlit(" GB");
    reveal_strlit(" TB");
    reveal_strlit(" wtf are you doing");
    lemma_size_steps_bounds(size);
    lemma_pow1024_grows(0);
    lemma_pow1024_grows(1);
    lemma_pow1024_grows(2);
    lemma_pow1024_grows(3);
    assert(pow1024(1) == 1024);
    assert(pow1024(2) == 1024 * 1024);
    assert(pow1024(3) == 1024 * 1024 * 1024);
    assert(pow1024(4) == 1024 * 1024 * 1024 * 1024);
    assert(""@.len() == 0);
    assert(" KB"@.len() == 3 && " MB"@.len() == 3 && " GB"@.len() == 3 && " TB"@.len() == 3);
    assert(" KB"@[1] == 'K' && " MB"@[1] == 'M' && " GB"@[1] == 'G' && " TB"@[1] == 'T');
    assert(" wtf are you doing"@.len() != 3);
}

/// `size_steps` divides the size down: the number shown times 1024 to the
/// number of steps is at most the size, one more is above it.
proof fn lemma_size_steps_bounds(size: nat)
    ensures
        size_steps(size).0 <= 1024,
        size_steps(size).0 * pow1024(size_steps(size).1) <= size,
        size < (size_steps(size).0 + 1) * pow1024(size_steps(size).1),
        size > 1024 <==> size_steps(size).1 > 0,
    decreases size,
{
    if size > 1024 {
        let d = size / 1024;
        lemma_size_steps_bounds(d);
        let n = size_steps(d).0;
        let k = size_steps(d).1;
        lemma_pow1024_grows(k);
        let p = pow1024(k);
        assert(size_steps(size).0 == n);
        assert(size_steps(size).1 == k + 1);
        assert(pow1024(k + 1) == 1024 * p);
        assert(n * p <= d < (n + 1) * p);
        assert(n * (1024 * p) <= size < (n + 1) * (1024 * p)) by (nonlinear_arith)
            requires
                n * p <= d,
                d < (n + 1) * p,
                d == size / 1024,
                p >= 1,
        ;
    } else {
        assert(pow1024(0) == 1);
        assert(size_steps(size).0 == size);
        assert(size_steps(size).1 == 0);
    }
}

proof fn lemma_pow_lower(u: nat)
    ensures
        pow1024(u) >= 2 * u + 1,
    decreases u,
{
    if u > 0 {
        lemma_pow_lower((u - 1) as nat);
        lemma_pow1024_grows((u - 1) as nat);
    }
}

fn append(out: &mut Vec<char>, s: &Vec<char>)
    ensures
        final(out)@ == old(out)@ + s@,
{
    let mut i: usize = 0;
    while i < s.len()
        invariant
            i <= s@.len(),
            out@ == old(out)@ + s@.take(i as int),
        decreases s.len() - i,
    {
        out.push(s[i]);
        i += 1;
        assert(out@ =~= old(out)@ + s@.take(i as int));
    }
    assert(s@.take(i as int) =~= s@);
}

/// The octal digits of `mode` read as a decimal number, modulo 800.
fn octal_decimal_mod_800(mode: u32) -> (r: u32)
    ensures
        r == octal_as_decimal(mode as nat) % 800,
        r < 800,
    decreases mode,
{
    if mode < 8 {
        mode
    } else {
        let high = octal_decimal_mod_800(mode / 8);
        proof {
            lemma_mod_step(octal_as_decimal(mode as nat / 8), (mode % 8) as nat);
        }
        (high * 10 + mode % 8) % 800
    }
}

proof fn lemma_mod_step(a: nat, d: nat)
    ensures
        (a * 10 + d) % 800 == ((a % 800) * 10 + d) % 800,
{
    assert((a * 10 + d) % 800 == ((a % 800) * 10 + d) % 800) by (nonlinear_arith);
}

/// The decimal digits of `n`.
fn decimal_digit_vec(n: u32) -> (r: Vec<u32>)
    ensures
        r@.map_values(|d: u32| d as nat) == decimal_digits(n as nat),
    decreases n,
{
    if n < 10 {
        let mut v: Vec<u32> = Vec::new();
        v.push(n);
        assert(v@.map_values(|d: u32| d as nat) =~= seq![n as nat]);
        v
    } else {
        let mut v = decimal_digit_vec(n / 10);
        let ghost prev = v@;
        v.push(n % 10);
        assert(v@.map_values(|d: u32| d as nat) =~= prev.map_values(|d: u32| d as nat).push(
            (n % 10) as nat,
        ));
        v
    }
}

} // verus!

verus! {

/// Whether `needle` occurs in `hay`, as `str::contains` finds it.
pub open spec fn contains_seq(hay: Seq<char>, needle: Seq<char>) -> bool {
    exists|i: int| 0 <= i <= hay.len() - needle.len() && #[trigger] hay.subrange(i, i + needle.len()) == needle
}

pub(crate) fn contains_chars(hay: &[char], needle: &[char]) -> (r: bool)
    ensures
        r == contains_seq(hay@, needle@),
{
    if needle.len() > hay.len() {
        return false;
    }
    let mut i: usize = 0;
    while i <= hay.len() - needle.len()
        invariant
            needle@.len() <= hay@.len(),
            i <= hay@.len() - needle@.len() + 1,
            forall|k: int| 0 <= k < i ==> #[trigger] hay@.subrange(k, k + needle@.len()) != needle@,
        decreases hay.len() - needle.len() + 1 - i,
    {
        let mut j: usize = 0;
        let mut same = true;
        while j < needle.len()
            invariant
                j <= needle@.len(),
                i + needle@.len() <= hay@.len(),
                hay@.len() == hay.len(),
                same == (forall|m: int| 0 <= m < j ==> hay@[i + m] == needle@[m]),
            decreases needle.len() - j,
        {
            if hay[i + j] != needle[j] {
                same = false;
            }
            j += 1;
        }
        if same {
            assert(hay@.subrange(i as int, i + needle@.len()) =~= needle@);
            return true;
        }
        assert(hay@.subrange(i as int, i + needle@.len()) != needle@) by {
            let m = choose|m: int| 0 <= m < needle@.len() && hay@[i + m] != needle@[m];
            assert(hay@.subrange(i as int, i + needle@.len())[m] != needle@[m]);
        }
        i += 1;
    }
    false
}

/// Whether a list with these settings shows the file `f`: a placeholder, or
/// a file whose name holds the filter (if any) and that is selected (if
/// only selected files are shown); a hidden file only while hidden files
/// are shown.
pub open spec fn shown(f: FileView, filter: Option<Seq<char>>, filter_selected: bool, show_hidden: bool) -> bool {
    &&& (f.kind == Kind::Placeholder || (!(filter is Some && !contains_seq(f.name, filter->0)) && (
    !filter_selected || f.selected)))
    &&& !(!show_hidden && f.hidden)
}

/// Under a name filter, a file other than the placeholder is shown only
/// where the filter occurs in its name; a shown file that is neither hidden
/// nor held back by the selection filter is shown exactly where its name
/// holds the filter; and where a file lies (its path) plays no part.
pub proof fn lemma_filter_matches_names(f: FileView, q: Seq<char>, filter_selected: bool, show_hidden: bool)
    ensures
        f.kind != Kind::Placeholder && shown(f, Some(q), filter_selected, show_hidden) ==> contains_seq(f.name, q),
        f.kind != Kind::Placeholder && !f.hidden && !filter_selected ==> (shown(f, Some(q), filter_selected, show_hidden)
            <==> contains_seq(f.name, q)),
        forall|p: Seq<char>|
            #[trigger] shown((FileView { path: p, ..f }), Some(q), filter_selected, show_hidden) == shown(
                f,
                Some(q),
                filter_selected,
                show_hidden,
            ),
{
}

/// Without a filter: a hidden file is shown only while hidden files are;
/// a file that is not hidden, with hidden files shown or not, is shown
/// unless only selected files are shown and it is not selected (the
/// placeholder always); and turning on the showing of hidden files hides
/// nothing.
pub proof fn lemma_hidden_and_selected(f: FileView, filter_selected: bool, show_hidden: bool)
    ensures
        f.hidden && !show_hidden ==> !shown(f, None, filter_selected, show_hidden),
        !f.hidden ==> (shown(f, None, filter_selected, show_hidden) <==> (f.kind == Kind::Placeholder
            || !filter_selected || f.selected)),
        shown(f, None, filter_selected, false) ==> shown(f, None, filter_selected, true),
        f.kind != Kind::Placeholder && filter_selected && !f.selected ==> !shown(f, None, filter_selected, show_hidden),
{
}

/// The files of a directory as a list shows them.
#[derive(Clone, Debug)]
pub struct Files {
    pub directory: File,
    pub files: Vec<File>,
    pub len: usize,
    pub meta_upto: Option<usize>,
    pub sort: SortBy,
    pub dirs_first: bool,
    pub reverse: bool,
    pub show_hidden: bool,
    pub filter: Option<String>,
    pub filter_selected: bool,
    pub dirty: DirtyBit,
}

/// The positions (in `files`) of the files shown, in order.
pub open spec fn shown_positions(
    files: Seq<FileView>,
    filter: Option<Seq<char>>,
    filter_selected: bool,
    show_hidden: bool,
) -> Seq<int>
    decreases files.len(),
{
    if files.len() == 0 {
        Seq::empty()
    } else {
        let p = shown_positions(files.drop_last(), filter, filter_selected, show_hidden);
        if shown(files.last(), filter, filter_selected, show_hidden) {
            p.push(files.len() - 1)
        } else {
            p
        }
    }
}

pub(crate) proof fn lemma_shown_positions_bound(
    files: Seq<FileView>,
    filter: Option<Seq<char>>,
    filter_selected: bool,
    show_hidden: bool,
)
    ensures
        shown_positions(files, filter, filter_selected, show_hidden).len() <= files.len(),
        forall|k: int|
            0 <= k < shown_positions(files, filter, filter_selected, show_hidden).len() ==> 0
                <= #[trigger] shown_positions(files, filter, filter_selected, show_hidden)[k]
                < files.len(),
    decreases files.len(),
{
    if files.len() > 0 {
        lemma_shown_positions_bound(files.drop_last(), filter, filter_selected, show_hidden);
    }
}

/// The comparison the sort uses: directories first (when set), then by name
/// (in the natural order of `alphanumeric_sort`), by size or by time of
/// change, the larger or newer first and equal ones by name backwards; two
/// files of which one lacks metadata are equal in the size and time orders.
pub open spec fn file_order(a: FileView, b: FileView, by: SortBy, dirs_first: bool) -> Ordering {
    if dirs_first && a.kind == Kind::Directory && b.kind != Kind::Directory {
        Ordering::Less
    } else if dirs_first && a.kind != Kind::Directory && b.kind == Kind::Directory {
        Ordering::Greater
    } else {
        match by {
            SortBy::Name => alnum_order(a.name, b.name),
            SortBy::Size => match (a.meta, b.meta) {
                (Some(am), Some(bm)) => if am.size == bm.size {
                    alnum_order(b.name, a.name)
                } else if bm.size < am.size {
                    Ordering::Less
                } else {
                    Ordering::Greater
                },
                _ => Ordering::Equal,
            },
            SortBy::MTime => match (a.meta, b.meta) {
                (Some(am), Some(bm)) => if am.mtime == bm.mtime {
                    alnum_order(b.name, a.name)
                } else if bm.mtime < am.mtime {
                    Ordering::Less
                } else {
                    Ordering::Greater
                },
                _ => Ordering::Equal,
            },
        }
    }
}

/// `alphanumeric_sort::compare_str` of two strings.
pub uninterp spec fn alnum_order(a: Seq<char>, b: Seq<char>) -> Ordering;

/// `alphanumeric_sort::compare_str`; its result is named `alnum_order`.
#[verifier::external_body]
fn compare_names(a: &str, b: &str) -> (r: Ordering)
    ensures
        r == alnum_order(a@, b@),
{
    alphanumeric_sort::compare_str(a, b)
}

/// Compares two files for the sort.
pub fn compare_files(a: &File, b: &File, by: SortBy, dirs_first: bool) -> (r: Ordering)
    ensures
        r == file_order(a@, b@, by, dirs_first),
{
    let a_dir = a.kind == Kind::Directory;
    let b_dir = b.kind == Kind::Directory;
    if dirs_first && a_dir && !b_dir {
        return Ordering::Less;
    }
    if dirs_first && !a_dir && b_dir {
        return Ordering::Greater;
    }
    match by {
        SortBy::Name => compare_names(a.name.as_str(), b.name.as_str()),
        SortBy::Size => match (a.meta, b.meta) {
            (Some(am), Some(bm)) => {
                if am.size == bm.size {
                    compare_names(b.name.as_str(), a.name.as_str())
                } else if bm.size < am.size {
                    Ordering::Less
                } else {
                    Ordering::Greater
                }
            },
            _ => Ordering::Equal,
        },
        SortBy::MTime => match (a.meta, b.meta) {
            (Some(am), Some(bm)) => {
                if am.mtime == bm.mtime {
                    compare_names(b.name.as_str(), a.name.as_str())
                } else if bm.mtime < am.mtime {
                    Ordering::Less
                } else {
                    Ordering::Greater
                }
            },
            _ => Ordering::Equal,
        },
    }
}

/// Whether the file order is a total order on the files `s`, as the sort
/// requires of its comparison: each pair compares one way (and the other
/// way round the opposite), and the three relations are transitive.
pub open spec fn total_on(s: Seq<FileView>, by: SortBy, dirs_first: bool) -> bool {
    &&& forall|i: int, j: int|
        0 <= i < s.len() && 0 <= j < s.len() ==> (file_order(s[i], s[j], by, dirs_first)
            == Ordering::Less <==> file_order(s[j], s[i], by, dirs_first) == Ordering::Greater)
    &&& forall|i: int, j: int|
        0 <= i < s.len() && 0 <= j < s.len() ==> (file_order(s[i], s[j], by, dirs_first)
            == Ordering::Equal <==> file_order(s[j], s[i], by, dirs_first) == Ordering::Equal)
    &&& forall|i: int, j: int, k: int|
        0 <= i < s.len() && 0 <= j < s.len() && 0 <= k < s.len() && file_order(
            s[i],
            s[j],
            by,
            dirs_first,
        ) == file_order(s[j], s[k], by, dirs_first) ==> file_order(s[i], s[k], by, dirs_first)
            == file_order(s[i], s[j], by, dirs_first)
}

/// Whether no file of `s` comes after a file that it is smaller than.
pub open spec fn sorted_by(s: Seq<FileView>, by: SortBy, dirs_first: bool) -> bool {
    forall|i: int, j: int|
        0 <= i < j < s.len() ==> file_order(s[j], s[i], by, dirs_first) != Ordering::Less
}

/// No file of `s` comes before a later one: each is after or level with
/// the ones following it, the order of `sorted_by` turned around.
pub open spec fn sorted_desc(s: Seq<FileView>, by: SortBy, dirs_first: bool) -> bool {
    forall|i: int, j: int|
        0 <= i < j < s.len() ==> file_order(s[i], s[j], by, dirs_first) != Ordering::Less
}

/// `s` is in the list's order: sorted, or sorted the other way round where
/// the order is reversed.
pub open spec fn in_list_order(s: Seq<FileView>, by: SortBy, dirs_first: bool, reverse: bool) -> bool {
    if reverse {
        sorted_desc(s, by, dirs_first)
    } else {
        sorted_by(s, by, dirs_first)
    }
}

/// The files of `v` in the other order.
fn reversed_files(v: Vec<File>) -> (r: Vec<File>)
    ensures
        r@ == v@.reverse(),
{
    let mut v = v;
    let ghost orig = v@;
    let ghost n = v@.len();
    let mut out: Vec<File> = Vec::new();
    while v.len() > 0
        invariant
            n == orig.len(),
            v@.len() <= n,
            v@ == orig.take(v@.len() as int),
            out@.len() == n - v@.len(),
            forall|i: int| 0 <= i < out@.len() ==> #[trigger] out@[i] == orig[n - 1 - i],
        decreases v.len(),
    {
        let ghost k = v@.len();
        let f = v.pop().unwrap();
        assert(f == orig[k - 1]);
        assert(v@ =~= orig.take(k - 1));
        out.push(f);
    }
    assert(out@ =~= orig.reverse());
    out
}

proof fn lemma_reversed_views(s: Seq<File>)
    ensures
        views(s.reverse()) == views(s).reverse(),
{
    assert(views(s.reverse()) =~= views(s).reverse());
}

proof fn lemma_reverse_sorted(s: Seq<FileView>, by: SortBy, dirs_first: bool)
    requires
        sorted_by(s, by, dirs_first),
    ensures
        sorted_desc(s.reverse(), by, dirs_first),
{
    let r = s.reverse();
    assert forall|i: int, j: int| 0 <= i < j < r.len() implies file_order(r[i], r[j], by, dirs_first)
        != Ordering::Less by {
        assert(r[i] == s[s.len() - 1 - i]);
        assert(r[j] == s[s.len() - 1 - j]);
    }
}

/// rayon's `par_sort_unstable_by` with the file comparison. Its
/// documentation gives that the sort works in place and only reorders the
/// elements, and that they end up sorted when the comparison is a total
/// order on them (else their order is unspecified).
#[verifier::external_body]
fn par_sort_files(files: &mut Vec<File>, by: SortBy, dirs_first: bool)
    ensures
        final(files)@.to_multiset() == old(files)@.to_multiset(),
        views(final(files)@).to_multiset() == views(old(files)@).to_multiset(),
        final(files)@.len() == old(files)@.len(),
        total_on(views(old(files)@), by, dirs_first) ==> sorted_by(views(final(files)@), by, dirs_first),
{
    files.par_sort_unstable_by(|a, b| compare_files(a, b, by, dirs_first));
}

impl Files {
    pub open spec fn filter_view(&self) -> Option<Seq<char>> {
        opt_view(self.filter)
    }

    /// The positions of the files the list shows, in order.
    pub open spec fn shown_view(&self) -> Seq<int> {
        shown_positions(views(self.files@), self.filter_view(), self.filter_selected, self.show_hidden)
    }

    /// The files of `directory`, `files` among them, sorted by name with
    /// directories first, hidden files shown and no filter set.
    pub fn new(directory: File, files: Vec<File>) -> (r: Files)
        ensures
            r.directory == directory,
            r.files@ == files@,
            r.len == files@.len(),
            r.meta_upto is None,
            r.sort == SortBy::Name,
            r.dirs_first,
            !r.reverse,
            r.show_hidden,
            r.filter is None,
            !r.filter_selected,
            !r.dirty.0,
    {
        let len = files.len();
        Files {
            directory,
            files,
            len,
            meta_upto: None,
            sort: SortBy::Name,
            dirs_first: true,
            reverse: false,
            show_hidden: true,
            filter: None,
            filter_selected: false,
            dirty: DirtyBit::new(),
        }
    }

    /// An empty list for no directory in particular.
    pub fn default() -> (r: Files)
        ensures
            r.directory.path@ == ""@,
            r.directory.kind == Kind::Placeholder,
            r.files@.len() == 0,
            r.len == 0,
            r.sort == SortBy::Name,
            r.dirs_first,
            r.show_hidden,
            r.filter is None,
    {
        Files::new(File::new_placeholder(""), Vec::new())
    }

    /// Whether the list shows the file `f`.
    pub fn is_shown(&self, f: &File) -> (r: bool)
        ensures
            r == shown(f@, self.filter_view(), self.filter_selected, self.show_hidden),
    {
        let first = f.kind == Kind::Placeholder || {
            let filtered_out = match &self.filter {
                Some(filter) => {
                    let n = str_to_chars(f.name.as_str());
                    let q = str_to_chars(filter.as_str());
                    !contains_chars(&n, &q)
                },
                None => false,
            };
            !filtered_out && (!self.filter_selected || f.selected)
        };
        first && !(!self.show_hidden && f.hidden)
    }

    /// The positions of the files the list shows, in order.
    pub fn visible_positions(&self) -> (r: Vec<usize>)
        ensures
            r@.map_values(|p: usize| p as int) == self.shown_view(),
    {
        let mut r: Vec<usize> = Vec::new();
        let mut i: usize = 0;
        assert(views(self.files@).take(0) =~= Seq::<FileView>::empty());
        while i < self.files.len()
            invariant
                i <= self.files@.len(),
                r@.map_values(|p: usize| p as int) == shown_positions(
                    views(self.files@).take(i as int),
                    self.filter_view(),
                    self.filter_selected,
                    self.show_hidden,
                ),
            decreases self.files.len() - i,
        {
            assert(views(self.files@).take(i + 1).drop_last() =~= views(self.files@).take(i as int));
            assert(views(self.files@).take(i + 1).last() == self.files@[i as int]@);
            if self.is_shown(&self.files[i]) {
                let ghost prev = r@;
                r.push(i);
                assert(r@.map_values(|p: usize| p as int) =~= prev.map_values(|p: usize| p as int).push(
                    i as int,
                ));
            }
            i += 1;
        }
        assert(views(self.files@).take(i as int) =~= views(self.files@));
        r
    }

    /// Counts the files shown again.
    pub fn recalculate_len(&mut self)
        ensures
            final(self).len == old(self).shown_view().len(),
            final(self).files == old(self).files,
            final(self).filter == old(self).filter,
            final(self).filter_selected == old(self).filter_selected,
            final(self).show_hidden == old(self).show_hidden,
            final(self).directory == old(self).directory,
            final(self).dirty == old(self).dirty,
            final(self).sort == old(self).sort,
            final(self).dirs_first == old(self).dirs_first,
            final(self).reverse == old(self).reverse,
            final(self).meta_upto == old(self).meta_upto,
    {
        let v = self.visible_positions();
        assert(v@.len() == self.shown_view().len()) by {
            assert(v@.map_values(|p: usize| p as int).len() == v@.len());
        }
        self.len = v.len();
    }

    pub fn len(&self) -> (r: usize)
        ensures
            r == self.len,
    {
        self.len
    }

    /// Whether sorting needs the metadata of all files read first: sorting
    /// by size or time before the metadata of every file is known.
    pub fn needs_meta_for_sort(&self) -> (r: bool)
        ensures
            r == (self.sort != SortBy::Name && match self.meta_upto {
                None => true,
                Some(u) => u < self.len,
            }),
    {
        self.sort != SortBy::Name && match self.meta_upto {
            None => true,
            Some(u) => u < self.len,
        }
    }

    /// Sorts the files in the list's order (turned around where the list is
    /// reversed); they are only reordered, and end up in that order when it
    /// is total on them.
    pub fn sort(&mut self)
        ensures
            final(self).files@.to_multiset() == old(self).files@.to_multiset(),
            final(self).files@.len() == old(self).files@.len(),
            views(final(self).files@).to_multiset() == views(old(self).files@).to_multiset(),
            total_on(views(old(self).files@), old(self).sort, old(self).dirs_first) ==> in_list_order(
                views(final(self).files@),
                old(self).sort,
                old(self).dirs_first,
                old(self).reverse,
            ),
            final(self).meta_upto == old(self).meta_upto,
            final(self).sort == old(self).sort,
            final(self).dirs_first == old(self).dirs_first,
            final(self).reverse == old(self).reverse,
            final(self).show_hidden == old(self).show_hidden,
            final(self).filter == old(self).filter,
            final(self).filter_selected == old(self).filter_selected,
            final(self).len == old(self).len,
            final(self).directory == old(self).directory,
            final(self).dirty == old(self).dirty,
    {
        par_sort_files(&mut self.files, self.sort, self.dirs_first);
        if self.reverse {
            let ghost before = self.files@;
            let mut files: Vec<File> = Vec::new();
            std::mem::swap(&mut files, &mut self.files);
            self.files = reversed_files(files);
            proof {
                before.lemma_reverse_to_multiset();
                views(before).lemma_reverse_to_multiset();
                lemma_reversed_views(before);
                if total_on(views(old(self).files@), old(self).sort, old(self).dirs_first) {
                    lemma_reverse_sorted(views(before), self.sort, self.dirs_first);
                }
            }
        }
    }

    /// Switches to the next order: name, size, time of change, name again.
    pub fn cycle_sort(&mut self)
        ensures
            final(self).sort == match old(self).sort {
                SortBy::Name => SortBy::Size,
                SortBy::Size => SortBy::MTime,
                SortBy::MTime => SortBy::Name,
            },
            *final(self) == (Files { sort: final(self).sort, ..*old(self) }),
    {
        self.sort = match self.sort {
            SortBy::Name => SortBy::Size,
            SortBy::Size => SortBy::MTime,
            SortBy::MTime => SortBy::Name,
        };
    }

    pub fn reverse_sort(&mut self)
        ensures
            final(self).reverse == !old(self).reverse,
            *final(self) == (Files { reverse: final(self).reverse, ..*old(self) }),
    {
        self.reverse = !self.reverse;
    }

    pub fn toggle_filter_selected(&mut self)
        ensures
            final(self).filter_selected == !old(self).filter_selected,
            *final(self) == (Files { filter_selected: final(self).filter_selected, ..*old(self) }),
    {
        self.filter_selected = !self.filter_selected;
    }

    pub fn get_filter(&self) -> (r: Option<String>)
        ensures
            opt_view(r) == self.filter_view(),
    {
        match &self.filter {
            Some(f) => Some(f.clone()),
            None => None,
        }
    }

    /// The position of the first shown file whose path is `path`.
    pub fn find_file_with_path(&self, path: &str) -> (r: Option<usize>)
        ensures
            match r {
                Some(p) => p < self.files@.len() && same_path(self.files@[p as int].path@, path@)
                    && self.shown_view().contains(p as int) && (forall|k: int|
                    0 <= k < self.shown_view().len() && self.shown_view()[k] < p ==> !same_path(
                        self.files@[self.shown_view()[k]].path@,
                        path@,
                    )),
                None => forall|k: int|
                    0 <= k < self.shown_view().len() ==> !same_path(
                        self.files@[#[trigger] self.shown_view()[k]].path@,
                        path@,
                    ),
            },
    {
        let v = self.visible_positions();
        proof {
            lemma_shown_positions_bound(
                views(self.files@),
                self.filter_view(),
                self.filter_selected,
                self.show_hidden,
            );
            lemma_shown_positions_increasing(
                views(self.files@),
                self.filter_view(),
                self.filter_selected,
                self.show_hidden,
            );
        }
        let ghost sv = self.shown_view();
        let mut i: usize = 0;
        while i < v.len()
            invariant
                i <= v@.len(),
                v@.map_values(|p: usize| p as int) == sv,
                sv == self.shown_view(),
                forall|k: int| 0 <= k < sv.len() ==> 0 <= #[trigger] sv[k] < self.files@.len(),
                forall|a: int, b: int| 0 <= a < b < sv.len() ==> sv[a] < sv[b],
                forall|k: int| 0 <= k < i ==> !same_path(self.files@[#[trigger] sv[k]].path@, path@),
            decreases v.len() - i,
        {
            let p = v[i];
            assert(sv[i as int] == p as int);
            if paths_equal(self.files[p].path.as_str(), path) {
                assert(sv.contains(p as int));
                assert forall|k: int|
                    0 <= k < sv.len() && sv[k] < p implies !same_path(self.files@[sv[k]].path@, path@) by {
                    if k >= i {
                        if k > i {
                            assert(sv[i as int] < sv[k]);
                        }
                    }
                }
                return Some(p);
            }
            i += 1;
        }
        None
    }

    /// Takes out the placeholder (a shown file at the directory's own path)
    /// if there is one, and counts the shown files again.
    pub fn remove_placeholder(&mut self)
        ensures
            final(self).filter == old(self).filter,
            final(self).filter_selected == old(self).filter_selected,
            final(self).show_hidden == old(self).show_hidden,
            final(self).directory == old(self).directory,
            final(self).dirty == old(self).dirty,
            final(self).sort == old(self).sort,
            final(self).dirs_first == old(self).dirs_first,
            final(self).reverse == old(self).reverse,
            final(self).meta_upto == old(self).meta_upto,
            match old(self).find_placeholder() {
                None => final(self).files == old(self).files && final(self).len == old(self).len,
                Some(_) => final(self).files@ == old(self).files@.remove(
                    first_same_path(old(self).files@, old(self).directory.path@),
                ) && final(self).len == final(self).shown_view().len() && final(self).files@.len() + 1
                    == old(self).files@.len(),
            },
    {
        let dir = self.directory.path.clone();
        match self.find_file_with_path(dir.as_str()) {
            None => {},
            Some(p) => {
                proof {
                    lemma_first_same_path(self.files@, self.directory.path@, p as int);
                }
                let first = first_position_with_path(&self.files, dir.as_str());
                self.files.remove(first);
                self.recalculate_len();
            },
        }
    }

    /// Whether a shown file sits at the directory's own path.
    pub open spec fn find_placeholder(&self) -> Option<int> {
        if exists|k: int|
            0 <= k < self.shown_view().len() && same_path(
                self.files@[#[trigger] self.shown_view()[k]].path@,
                self.directory.path@,
            ) {
            Some(first_same_path(self.files@, self.directory.path@))
        } else {
            None
        }
    }

    /// Shows or hides hidden files.
    pub fn toggle_hidden(&mut self)
        ensures
            final(self).show_hidden == !old(self).show_hidden,
            final(self).dirty.0,
            final(self).filter == old(self).filter,
            final(self).filter_selected == old(self).filter_selected,
            final(self).directory == old(self).directory,
            final(self).sort == old(self).sort,
            final(self).dirs_first == old(self).dirs_first,
            final(self).reverse == old(self).reverse,
            final(self).meta_upto == old(self).meta_upto,
            ({
                let mid = Files { show_hidden: !old(self).show_hidden, dirty: final(self).dirty, ..*old(self) };
                if mid.show_hidden && old(self).len > 1 {
                    match mid.find_placeholder() {
                        None => final(self).files == old(self).files && final(self).len == old(self).len,
                        Some(_) => final(self).files@ == old(self).files@.remove(
                            first_same_path(old(self).files@, old(self).directory.path@),
                        ) && final(self).len == final(self).shown_view().len()
                            && final(self).files@.len() + 1 == old(self).files@.len(),
                    }
                } else {
                    final(self).files == old(self).files && final(self).len
                        == final(self).shown_view().len()
                }
            }),
    {
        self.show_hidden = !self.show_hidden;
        self.dirty.set_dirty();
        if self.show_hidden == true && self.len() > 1 {
            self.remove_placeholder();
        } else {
            self.recalculate_len();
        }
    }

    /// Sets the name filter; a placeholder takes the place of the files where
    /// none is left to show.
    pub fn set_filter(&mut self, filter: Option<String>)
        ensures
            final(self).filter == filter,
            final(self).dirty.0,
            final(self).directory == old(self).directory,
            final(self).filter_selected == old(self).filter_selected,
            final(self).show_hidden == old(self).show_hidden,
            final(self).sort == old(self).sort,
            final(self).dirs_first == old(self).dirs_first,
            final(self).reverse == old(self).reverse,
            final(self).meta_upto == old(self).meta_upto,
            filtered(old(self), opt_view(filter), final(self)),
            final(self).files@.len() <= old(self).files@.len() + 1,
    {
        self.filter = filter;
        let ghost mid = *self;
        assert(mid.shown_view() == shown_positions(
            views(old(self).files@),
            opt_view(filter),
            old(self).filter_selected,
            old(self).show_hidden,
        ));
        self.remove_placeholder();
        let ghost rest = self.files@;
        if self.len() == 0 {
            let placeholder = File::new_placeholder(self.directory.path.as_str());
            self.files.push(placeholder);
            assert(views(self.files@) =~= views(rest).push(placeholder_view(old(self).directory.path@)));
            self.len = 1;
        }
        self.dirty.set_dirty();
    }

    /// The positions of the shown files that are selected, in order.
    pub fn get_selected(&self) -> (r: Vec<usize>)
        ensures
            r@.map_values(|p: usize| p as int) == selected_positions(views(self.files@), self.shown_view()),
            forall|k: int| 0 <= k < r@.len() ==> self.shown_view().contains(#[trigger] r@[k] as int)
                && self.files@[r@[k] as int].selected,
    {
        let v = self.visible_positions();
        proof {
            lemma_shown_positions_bound(
                views(self.files@),
                self.filter_view(),
                self.filter_selected,
                self.show_hidden,
            );
        }
        let ghost sv = self.shown_view();
        let ghost fv = views(self.files@);
        assert(v@.len() == sv.len()) by {
            assert(v@.map_values(|p: usize| p as int).len() == v@.len());
        }
        let mut r: Vec<usize> = Vec::new();
        let mut i: usize = 0;
        assert(sv.take(0) =~= Seq::<int>::empty());
        while i < v.len()
            invariant
                i <= v@.len(),
                v@.len() == sv.len(),
                v@.map_values(|p: usize| p as int) == sv,
                sv == self.shown_view(),
                fv == views(self.files@),
                forall|k: int| 0 <= k < sv.len() ==> 0 <= #[trigger] sv[k] < self.files@.len(),
                forall|k: int| 0 <= k < r@.len() ==> sv.contains(#[trigger] r@[k] as int)
                    && self.files@[r@[k] as int].selected,
                r@.map_values(|p: usize| p as int) == selected_positions(fv, sv.take(i as int)),
            decreases v.len() - i,
        {
            let p = v[i];
            assert(sv[i as int] == p as int);
            assert(sv.take(i + 1).drop_last() =~= sv.take(i as int));
            assert(sv.take(i + 1).last() == p as int);
            if self.files[p].selected {
                let ghost prev = r@;
                r.push(p);
                assert(r@.map_values(|q: usize| q as int) =~= prev.map_values(|q: usize| q as int).push(p as int));
                assert(sv.contains(p as int)) by {
                    assert(sv[i as int] == p as int);
                }
            }
            i += 1;
        }
        assert(sv.take(i as int) =~= sv);
        r
    }
}

/// What setting the name filter `filter` on `a` leaves in `b`: the
/// placeholder (a shown file at the directory's path) goes, and where then
/// nothing is counted, a new placeholder is added and counted alone.
pub open spec fn filtered(a: &Files, filter: Option<Seq<char>>, b: &Files) -> bool {
    let fv = views(a.files@);
    let placeholder_shown = exists|k: int|
        0 <= k < shown_positions(fv, filter, a.filter_selected, a.show_hidden).len()
            && same_path(
            a.files@[#[trigger] shown_positions(fv, filter, a.filter_selected, a.show_hidden)[k]].path@,
            a.directory.path@,
        );
    let rest = if placeholder_shown {
        a.files@.remove(first_same_path(a.files@, a.directory.path@))
    } else {
        a.files@
    };
    let n: nat = if placeholder_shown {
        shown_positions(views(rest), filter, a.filter_selected, a.show_hidden).len()
    } else {
        a.len as nat
    };
    if n == 0 {
        &&& views(b.files@) == views(rest).push(placeholder_view(a.directory.path@))
        &&& b.len == 1
    } else {
        &&& b.files@ == rest
        &&& b.len == n
    }
}

/// The positions among `sv` of the files of `fs` that are selected.
pub open spec fn selected_positions(fs: Seq<FileView>, sv: Seq<int>) -> Seq<int>
    decreases sv.len(),
{
    if sv.len() == 0 {
        Seq::empty()
    } else {
        let p = selected_positions(fs, sv.drop_last());
        if fs[sv.last()].selected {
            p.push(sv.last())
        } else {
            p
        }
    }
}

/// The first position of a file at `path`.
pub open spec fn first_same_path(files: Seq<File>, path: Seq<char>) -> int
    decreases files.len(),
{
    if files.len() == 0 {
        0
    } else if same_path(files[0].path@, path) {
        0
    } else {
        first_same_path(files.drop_first(), path) + 1
    }
}

proof fn lemma_first_same_path(files: Seq<File>, path: Seq<char>, p: int)
    requires
        0 <= p < files.len(),
        same_path(files[p].path@, path),
    ensures
        0 <= first_same_path(files, path) <= p,
        same_path(files[first_same_path(files, path)].path@, path),
        forall|k: int| 0 <= k < first_same_path(files, path) ==> !same_path(files[k].path@, path),
    decreases files.len(),
{
    if !same_path(files[0].path@, path) {
        lemma_first_same_path(files.drop_first(), path, p - 1);
        assert forall|k: int| 0 <= k < first_same_path(files, path) implies !same_path(files[k].path@, path) by {
            if k > 0 {
                assert(files.drop_first()[k - 1] == files[k]);
            }
        }
    }
}

fn first_position_with_path(files: &Vec<File>, path: &str) -> (r: usize)
    requires
        exists|p: int| 0 <= p < files@.len() && same_path(files@[p].path@, path@),
    ensures
        r == first_same_path(files@, path@),
        r < files@.len(),
{
    let mut i: usize = 0;
    let ghost w = choose|p: int| 0 <= p < files@.len() && same_path(files@[p].path@, path@);
    proof {
        lemma_first_same_path(files@, path@, w);
    }
    while i < files.len()
        invariant
            i <= first_same_path(files@, path@),
            0 <= first_same_path(files@, path@) < files@.len(),
            same_path(files@[first_same_path(files@, path@)].path@, path@),
            forall|k: int| 0 <= k < first_same_path(files@, path@) ==> !same_path(files@[k].path@, path@),
        decreases files.len() - i,
    {
        if paths_equal(files[i].path.as_str(), path) {
            return i;
        }
        i += 1;
    }
    i
}

pub(crate) proof fn lemma_shown_positions_increasing(
    files: Seq<FileView>,
    filter: Option<Seq<char>>,
    filter_selected: bool,
    show_hidden: bool,
)
    ensures
        forall|a: int, b: int|
            0 <= a < b < shown_positions(files, filter, filter_selected, show_hidden).len()
                ==> shown_positions(files, filter, filter_selected, show_hidden)[a]
                < shown_positions(files, filter, filter_selected, show_hidden)[b],
    decreases files.len(),
{
    if files.len() > 0 {
        lemma_shown_positions_increasing(files.drop_last(), filter, filter_selected, show_hidden);
        lemma_shown_positions_bound(files.drop_last(), filter, filter_selected, show_hidden);
    }
}

impl Dirtyable for Files {
    open spec fn dirty(&self) -> bool {
        self.dirty.0
    }

    fn is_dirty(&self) -> (r: bool) {
        self.dirty.is_dirty()
    }

    fn set_dirty(&mut self) {
        self.dirty.set_dirty();
    }

    fn set_clean(&mut self) {
        self.dirty.set_clean();
    }
}

impl Listable for Files {
    open spec fn len_spec(&self) -> nat {
        self.len as nat
    }

    fn len(&self) -> (r: usize) {
        self.len
    }
}

} // verus!

verus! {

/// A change in a directory that the file system reported. The files it
/// carries have their metadata read already.
#[derive(Debug)]
pub enum FsEvent {
    Create(File),
    Change(File),
    Rename(File, File),
    Remove(File),
}

impl FsEvent {
    /// The file the event is about (the new one of a rename).
    pub fn file(&self) -> (r: &File)
        ensures
            *r == match *self {
                FsEvent::Create(f) | FsEvent::Change(f) | FsEvent::Remove(f) | FsEvent::Rename(_, f) => f,
            },
    {
        match self {
            FsEvent::Create(f) | FsEvent::Change(f) | FsEvent::Remove(f) | FsEvent::Rename(_, f) => f,
        }
    }

    /// Whether the event is about a file at `file`'s path.
    pub fn for_file(&self, file: &File) -> (r: bool)
        ensures
            r == same_path(
                match *self {
                    FsEvent::Create(f) | FsEvent::Change(f) | FsEvent::Remove(f) | FsEvent::Rename(_, f) => f,
                }.path@,
                file.path@,
            ),
    {
        let f = self.file();
        paths_equal(f.path.as_str(), file.path.as_str())
    }
}

/// The last position in `s` of a file at `p`.
pub open spec fn last_with_path(s: Seq<FileView>, p: Seq<char>) -> Option<int>
    decreases s.len(),
{
    if s.len() == 0 {
        None
    } else if s.last().path == p {
        Some(s.len() - 1)
    } else {
        last_with_path(s.drop_last(), p)
    }
}

/// `f` with the metadata that `src` holds.
pub open spec fn with_meta_of(f: FileView, src: FileView) -> FileView {
    FileView {
        meta: src.meta,
        dirsize: src.dirsize,
        target: src.target,
        meta_processed: src.meta_processed,
        ..f
    }
}

/// `f` moved to where `n` is, with `n`'s metadata; unchanged where that
/// place has no file name.
pub open spec fn renamed(f: FileView, n: FileView) -> FileView {
    match path_file_name(n.path) {
        Some(name) => with_meta_of(FileView { name, path: n.path, ..f }, n),
        None => f,
    }
}

/// The files after a batch of events, the files created, the paths of the
/// files changed and the paths of the files removed.
pub struct EventsApplied {
    pub files: Seq<FileView>,
    pub created: Seq<FileView>,
    pub changed: Seq<Seq<char>>,
    pub deleted: Seq<Seq<char>>,
}

/// The events `evs` applied one after the other to the files `st` (found by
/// their path among `st` as it was before the batch).
pub open spec fn apply_events(st: Seq<FileView>, evs: Seq<FsEvent>) -> EventsApplied
    decreases evs.len(),
{
    if evs.len() == 0 {
        EventsApplied { files: st, created: Seq::empty(), changed: Seq::empty(), deleted: Seq::empty() }
    } else {
        let a = apply_events(st, evs.drop_last());
        match evs.last() {
            FsEvent::Create(f) => EventsApplied { created: a.created.push(f@), ..a },
            FsEvent::Change(f) => match last_with_path(st, f@.path) {
                Some(p) => EventsApplied {
                    files: a.files.update(p, with_meta_of(a.files[p], f@)),
                    changed: a.changed.push(f@.path),
                    ..a
                },
                None => a,
            },
            FsEvent::Rename(o, n) => match last_with_path(st, o@.path) {
                Some(p) => EventsApplied { files: a.files.update(p, renamed(a.files[p], n@)), ..a },
                None => a,
            },
            FsEvent::Remove(f) => match last_with_path(st, f@.path) {
                Some(_) => EventsApplied { deleted: a.deleted.push(f@.path), ..a },
                None => a,
            },
        }
    }
}

/// The files of `fs` whose path is not among `deleted`, in order.
pub open spec fn keep_files(fs: Seq<FileView>, deleted: Seq<Seq<char>>) -> Seq<FileView>
    decreases fs.len(),
{
    if fs.len() == 0 {
        Seq::empty()
    } else if deleted.contains(fs.last().path) {
        keep_files(fs.drop_last(), deleted)
    } else {
        keep_files(fs.drop_last(), deleted).push(fs.last())
    }
}

/// The files of a list after a batch of events: the removed ones taken out
/// and the created ones added at the end.
pub open spec fn refreshed_files(st: Seq<FileView>, evs: Seq<FsEvent>) -> Seq<FileView> {
    let a = apply_events(st, evs);
    keep_files(a.files, a.deleted) + a.created
}

/// The files shown from the positions `ps` of `fs`.
pub open spec fn pick(fs: Seq<FileView>, ps: Seq<int>) -> Seq<FileView> {
    ps.map_values(|p: int| fs[p])
}

/// The old lines after the lines of the shown files `gs` were taken: a
/// line that is kept is used up (left empty).
pub open spec fn old_after(gs: Seq<FileView>, old: Seq<Seq<char>>, before: Seq<FileView>, changed: Seq<Seq<char>>) -> Seq<Seq<char>>
    decreases gs.len(),
{
    if gs.len() == 0 {
        old
    } else {
        let o = old_after(gs.drop_last(), old, before, changed);
        match last_with_path(before, gs.last().path) {
            Some(p) => if changed.contains(gs.last().path) {
                o
            } else {
                o.update(p, Seq::empty())
            },
            None => o,
        }
    }
}

/// Whether `lines` are the list's lines for the shown files `gs`: a file
/// that was shown at a place `p` of the old lines `old` (found by path in
/// `before`) and did not change keeps that line (which is then used up),
/// every other file gets a line from `render`.
pub open spec fn buffer_ok<F: Fn(&File) -> String>(
    gs: Seq<File>,
    old: Seq<Seq<char>>,
    before: Seq<FileView>,
    changed: Seq<Seq<char>>,
    render: F,
    lines: Seq<String>,
) -> bool
    decreases gs.len(),
{
    if gs.len() == 0 {
        lines.len() == 0
    } else {
        &&& lines.len() == gs.len()
        &&& buffer_ok(gs.drop_last(), old, before, changed, render, lines.drop_last())
        &&& {
            let o = old_after(views(gs.drop_last()), old, before, changed);
            match last_with_path(before, gs.last()@.path) {
                Some(p) => if changed.contains(gs.last()@.path) {
                    call_ensures(render, (&gs.last(),), lines.last())
                } else {
                    lines.last()@ == o[p]
                },
                None => call_ensures(render, (&gs.last(),), lines.last()),
            }
        }
    }
}

/// The new state of a list after a batch of file system events.
pub struct RefreshPackage {
    pub new_files: Option<Vec<File>>,
    pub new_buffer: Option<Vec<String>>,
    pub new_len: usize,
}

pub open spec fn strings_view(v: Seq<String>) -> Seq<Seq<char>> {
    v.map_values(|s: String| s@)
}

} // verus!

verus! {

/// The paths of `s`.
pub open spec fn paths_of(s: Seq<FileView>) -> Seq<Seq<char>> {
    s.map_values(|f: FileView| f.path)
}

/// The last position of `p` in `ps`.
pub open spec fn last_index(ps: Seq<Seq<char>>, p: Seq<char>) -> Option<int>
    decreases ps.len(),
{
    if ps.len() == 0 {
        None
    } else if ps.last() == p {
        Some(ps.len() - 1)
    } else {
        last_index(ps.drop_last(), p)
    }
}

proof fn lemma_last_with_path_index(s: Seq<FileView>, p: Seq<char>)
    ensures
        last_with_path(s, p) == last_index(paths_of(s), p),
        last_with_path(s, p) matches Some(i) ==> 0 <= i < s.len() && s[i].path == p,
    decreases s.len(),
{
    if s.len() > 0 {
        assert(paths_of(s).drop_last() =~= paths_of(s.drop_last()));
        lemma_last_with_path_index(s.drop_last(), p);
    }
}

fn path_list(files: &Vec<File>) -> (r: Vec<Vec<char>>)
    ensures
        chars_of(r@) == paths_of(views(files@)),
{
    let mut r: Vec<Vec<char>> = Vec::new();
    let mut i: usize = 0;
    while i < files.len()
        invariant
            i <= files@.len(),
            chars_of(r@) == paths_of(views(files@)).take(i as int),
        decreases files.len() - i,
    {
        let ghost prev = chars_of(r@);
        let pc = str_to_chars(files[i].path.as_str());
        assert(pc@ == paths_of(views(files@))[i as int]);
        r.push(pc);
        assert(chars_of(r@) =~= prev.push(pc@));
        assert(paths_of(views(files@)).take(i + 1) =~= paths_of(views(files@)).take(i as int).push(pc@));
        i += 1;
    }
    assert(paths_of(views(files@)).take(i as int) =~= paths_of(views(files@)));
    r
}

fn last_position(ps: &Vec<Vec<char>>, p: &[char]) -> (r: Option<usize>)
    ensures
        r matches Some(i) ==> i < ps@.len() && last_index(chars_of(ps@), p@) == Some(i as int),
        r is None ==> last_index(chars_of(ps@), p@) is None,
{
    let mut i = ps.len();
    let ghost cs = chars_of(ps@);
    assert(cs.take(i as int) =~= cs);
    while i > 0
        invariant
            i <= ps@.len(),
            cs == chars_of(ps@),
            last_index(cs, p@) == last_index(cs.take(i as int), p@),
        decreases i,
    {
        assert(cs.take(i as int).drop_last() =~= cs.take(i - 1));
        assert(cs.take(i as int).last() == ps@[i - 1]@);
        if chars_eq(&ps[i - 1], p) {
            return Some(i - 1);
        }
        i -= 1;
    }
    assert(cs.take(0) =~= Seq::<Seq<char>>::empty());
    None
}

fn contains_path(ps: &Vec<Vec<char>>, p: &[char]) -> (r: bool)
    ensures
        r == chars_of(ps@).contains(p@),
{
    let mut i: usize = 0;
    while i < ps.len()
        invariant
            i <= ps@.len(),
            forall|k: int| 0 <= k < i ==> ps@[k]@ != p@,
        decreases ps.len() - i,
    {
        if chars_eq(&ps[i], p) {
            assert(chars_of(ps@)[i as int] == p@);
            return true;
        }
        i += 1;
    }
    assert forall|k: int| 0 <= k < chars_of(ps@).len() implies chars_of(ps@)[k] != p@ by {
        assert(chars_of(ps@)[k] == ps@[k]@);
    }
    false
}

/// The files a refresh starts from: a lone placeholder taken out.
pub open spec fn refresh_start(files: Files) -> Seq<File> {
    if files.len == 1 {
        match files.find_placeholder() {
            Some(_) => files.files@.remove(first_same_path(files.files@, files.directory.path@)),
            None => files.files@,
        }
    } else {
        files.files@
    }
}

/// The files that had lines before a refresh: the shown ones, as many as
/// there were lines.
pub open spec fn refresh_before(files: Files, old_len: int) -> Seq<FileView> {
    let st = views(refresh_start(files));
    let shown_before = pick(
        st,
        shown_positions(st, files.filter_view(), files.filter_selected, files.show_hidden),
    );
    shown_before.take(
        if shown_before.len() <= old_len {
            shown_before.len() as int
        } else {
            old_len
        },
    )
}

/// The files after a refresh, before sorting.
pub open spec fn refresh_result(files: Files, evs: Seq<FsEvent>) -> Seq<FileView> {
    refreshed_files(views(refresh_start(files)), evs)
}

/// The number of files shown after a refresh.
pub open spec fn refresh_count(files: Files, evs: Seq<FsEvent>) -> nat {
    shown_positions(
        refresh_result(files, evs),
        files.filter_view(),
        files.filter_selected,
        files.show_hidden,
    ).len()
}

impl RefreshPackage {
    /// The list's new files, line count and lines after the events `events`:
    /// a lone placeholder is taken out first; changed and renamed files are
    /// found by their path among the files as they were and take the
    /// metadata the events carry, removed ones are taken out and created ones
    /// added; the files are sorted; an unchanged file keeps its line from
    /// `old_buffer` and the others are drawn with `render_fn`. Where no file
    /// is left to show, a placeholder is added.
    pub fn new<F: Fn(&File) -> String>(
        files: Files,
        old_buffer: Vec<String>,
        events: Vec<FsEvent>,
        render_fn: F,
    ) -> (r: RefreshPackage)
        requires
            forall|f: &File| call_requires(render_fn, (f,)),
        ensures
            r.new_files is Some,
            r.new_buffer is Some,
            refresh_count(files, events@) > 0 ==> {
                &&& views(r.new_files->0@).to_multiset() == refresh_result(files, events@).to_multiset()
                &&& (total_on(refresh_result(files, events@), files.sort, files.dirs_first) ==> in_list_order(
                    views(r.new_files->0@),
                    files.sort,
                    files.dirs_first,
                    files.reverse,
                ))
                &&& r.new_len == refresh_count(files, events@)
                &&& buffer_ok(
                    shown_positions(
                        views(r.new_files->0@),
                        files.filter_view(),
                        files.filter_selected,
                        files.show_hidden,
                    ).map_values(|p: int| r.new_files->0@[p]),
                    strings_view(old_buffer@),
                    refresh_before(files, old_buffer@.len() as int),
                    apply_events(views(refresh_start(files)), events@).changed,
                    render_fn,
                    r.new_buffer->0@,
                )
            },
            refresh_count(files, events@) == 0 ==> {
                &&& r.new_files->0@.len() == refresh_result(files, events@).len() + 1
                &&& views(r.new_files->0@.drop_last()).to_multiset() == refresh_result(
                    files,
                    events@,
                ).to_multiset()
                &&& r.new_files->0@.last().kind == Kind::Placeholder
                &&& r.new_files->0@.last().path@ == files.directory.path@
                &&& r.new_len == 1
                &&& r.new_buffer->0@.len() == 1
                &&& call_ensures(render_fn, (&r.new_files->0@.last(),), r.new_buffer->0@[0])
            },
    {
        let ghost files0 = files;
        let ghost events0 = events@;
        let mut files = files;
        if files.len() == 1 {
            files.remove_placeholder();
        }
        let ghost st = views(files.files@);
        assert(st == views(refresh_start(files0)));
        let static_paths = path_list(&files.files);
        proof {
            lemma_shown_positions_bound(st, files.filter_view(), files.filter_selected, files.show_hidden);
        }
        let vis = files.visible_positions();
        let n_before = if vis.len() <= old_buffer.len() {
            vis.len()
        } else {
            old_buffer.len()
        };
        let ghost shown_before = pick(
            st,
            shown_positions(st, files.filter_view(), files.filter_selected, files.show_hidden),
        );
        let ghost before = shown_before.take(n_before as int);
        let mut before_paths: Vec<Vec<char>> = Vec::new();
        let mut k: usize = 0;
        while k < n_before
            invariant
                k <= n_before,
                n_before <= vis@.len(),
                vis@.map_values(|p: usize| p as int) == shown_positions(
                    st,
                    files.filter_view(),
                    files.filter_selected,
                    files.show_hidden,
                ),
                st == views(files.files@),
                forall|j: int|
                    0 <= j < shown_positions(st, files.filter_view(), files.filter_selected, files.show_hidden).len()
                        ==> 0 <= #[trigger] shown_positions(
                        st,
                        files.filter_view(),
                        files.filter_selected,
                        files.show_hidden,
                    )[j] < st.len(),
                shown_before == pick(st, shown_positions(st, files.filter_view(), files.filter_selected, files.show_hidden)),
                chars_of(before_paths@) == paths_of(shown_before.take(k as int)),
            decreases n_before - k,
        {
            let p = vis[k];
            assert(shown_positions(st, files.filter_view(), files.filter_selected, files.show_hidden)[k as int] == p as int);
            let pc = str_to_chars(files.files[p].path.as_str());
            assert(shown_before[k as int] == st[p as int]);
            assert(pc@ == paths_of(shown_before)[k as int]);
            let ghost prevb = chars_of(before_paths@);
            before_paths.push(pc);
            assert(chars_of(before_paths@) =~= prevb.push(pc@));
            assert(paths_of(shown_before.take(k + 1)) =~= paths_of(shown_before.take(k as int)).push(pc@));
            k += 1;
        }
        proof {
            lemma_last_with_path_index(before, Seq::empty());
        }
        let ghost dir = files.directory;
        let ghost fv = files.filter_view();
        let ghost fsel = files.filter_selected;
        let ghost fhid = files.show_hidden;
        let ghost fsort = files.sort;
        let ghost fdf = files.dirs_first;
        let ghost frev = files.reverse;
        let mut new_files: Vec<File> = Vec::new();
        let mut changed: Vec<Vec<char>> = Vec::new();
        let mut deleted: Vec<Vec<char>> = Vec::new();
        let mut evs = events;
        let ghost all_events = evs@;
        let mut i: usize = 0;
        let n_events = evs.len();
        assert(all_events.len() == n_events);
        assert(all_events.take(0) =~= Seq::<FsEvent>::empty());
        while evs.len() > 0
            invariant
                i <= all_events.len(),
                all_events.len() <= usize::MAX,
                evs@ == all_events.skip(i as int),
                chars_of(static_paths@) == paths_of(st),
                st.len() == files.files@.len(),
                views(files.files@) == apply_events(st, all_events.take(i as int)).files,
                views(new_files@) == apply_events(st, all_events.take(i as int)).created,
                chars_of(changed@) == apply_events(st, all_events.take(i as int)).changed,
                chars_of(deleted@) == apply_events(st, all_events.take(i as int)).deleted,
                files.directory == dir,
                files.filter_view() == fv,
                files.filter_selected == fsel,
                files.show_hidden == fhid,
                files.sort == fsort,
                files.dirs_first == fdf,
                files.reverse == frev,
            decreases evs.len(),
        {
            assert(evs@.len() == all_events.len() - i);
            let ev = evs.remove(0);
            assert(ev == all_events[i as int]);
            assert(all_events.take(i + 1) =~= all_events.take(i as int).push(ev));
            assert(evs@ =~= all_events.skip(i + 1));
            apply_event(
                &mut files.files,
                &mut new_files,
                &mut changed,
                &mut deleted,
                &static_paths,
                ev,
                Ghost(st),
                Ghost(all_events.take(i as int)),
            );
            i += 1;
        }
        assert(all_events.take(i as int) =~= all_events);
        let ghost a = apply_events(st, all_events);
        let mut all: Vec<File> = Vec::new();
        std::mem::swap(&mut all, &mut files.files);
        let mut kept: Vec<File> = Vec::new();
        let ghost all_v = views(all@);
        for f in it: all.into_iter()
            invariant
                views(kept@) == keep_files(all_v.take(it.index() as int), a.deleted),
                all_v == a.files,
                chars_of(deleted@) == a.deleted,
                it.seq().map_values(|g: File| g@) == all_v,
        {
            assert(all_v.take(it.index() + 1).drop_last() =~= all_v.take(it.index() as int));
            let fp = str_to_chars(f.path.as_str());
            if !contains_path(&deleted, &fp) {
                let ghost prev = views(kept@);
                kept.push(f);
                assert(views(kept@) =~= prev.push(f@));
            }
        }
        assert(all_v.take(all_v.len() as int) =~= all_v);
        let ghost kept_v = views(kept@);
        kept.append(&mut new_files);
        assert(views(kept@) =~= kept_v + a.created);
        files.files = kept;
        assert(views(files.files@) == refresh_result(files0, events0));
        files.recalculate_len();
        assert(files.len == refresh_count(files0, events0));
        files.sort();
        let ghost result = refreshed_files(st, all_events);
        let vis2 = files.visible_positions();
        proof {
            lemma_shown_positions_bound(views(files.files@), fv, fsel, fhid);
        }
        let ghost gs = files.shown_view().map_values(|p: int| files.files@[p]);
        let mut old_buffer = old_buffer;
        let ghost old0 = strings_view(old_buffer@);
        let mut new_buffer: Vec<String> = Vec::new();
        let mut j: usize = 0;
        assert(gs.take(0) =~= Seq::<File>::empty());
        while j < vis2.len()
            invariant
                j <= vis2@.len(),
                vis2@.map_values(|p: usize| p as int) == files.shown_view(),
                forall|q: int| 0 <= q < files.shown_view().len() ==> 0 <= #[trigger] files.shown_view()[q] < files.files@.len(),
                gs == files.shown_view().map_values(|p: int| files.files@[p]),
                chars_of(before_paths@) == paths_of(before),
                before.len() == n_before,
                n_before <= old0.len(),
                chars_of(changed@) == a.changed,
                strings_view(old_buffer@) == old_after(views(gs.take(j as int)), old0, before, a.changed),
                old_buffer@.len() == old0.len(),
                buffer_ok(gs.take(j as int), old0, before, a.changed, render_fn, new_buffer@),
                forall|f: &File| call_requires(render_fn, (f,)),
            decreases vis2.len() - j,
        {
            let p = vis2[j];
            assert(files.shown_view()[j as int] == p as int);
            let file = &files.files[p];
            assert(gs[j as int] == *file);
            assert(gs.take(j + 1).drop_last() =~= gs.take(j as int));
            assert(gs.take(j + 1).last() == *file);
            assert(views(gs.take(j + 1)).drop_last() =~= views(gs.take(j as int)));
            let fp = str_to_chars(file.path.as_str());
            proof {
                lemma_last_with_path_index(before, file@.path);
            }
            let ghost prev_lines = new_buffer@;
            match last_position(&before_paths, &fp) {
                Some(q) => {
                    if contains_path(&changed, &fp) {
                        let line = render_fn(file);
                        new_buffer.push(line);
                    } else {
                        let ghost ob = strings_view(old_buffer@);
                        let line = old_buffer.remove(q);
                        old_buffer.insert(q, String::new());
                        assert(strings_view(old_buffer@) =~= ob.update(q as int, Seq::empty()));
                        new_buffer.push(line);
                    }
                },
                None => {
                    let line = render_fn(file);
                    new_buffer.push(line);
                },
            }
            assert(new_buffer@.drop_last() =~= prev_lines);
            j += 1;
        }
        assert(gs.take(j as int) =~= gs);
        assert(before == refresh_before(files0, old0.len() as int));
        assert(a == apply_events(views(refresh_start(files0)), events0));
        assert(files.filter_view() == files0.filter_view());
        assert(files.filter_selected == files0.filter_selected);
        assert(files.show_hidden == files0.show_hidden);
        assert(files.sort == files0.sort);
        assert(files.dirs_first == files0.dirs_first);
        assert(files.reverse == files0.reverse);
        if files.len() > 0 {
            assert(views(files.files@).to_multiset() == refresh_result(files0, events0).to_multiset());
            assert(files.len == refresh_count(files0, events0));
            assert(buffer_ok(gs, old0, before, a.changed, render_fn, new_buffer@));
            RefreshPackage { new_files: Some(files.files), new_buffer: Some(new_buffer), new_len: files.len }
        } else {
            let placeholder = File::new_placeholder(files.directory.path.as_str());
            let line = render_fn(&placeholder);
            let mut buffer: Vec<String> = Vec::new();
            buffer.push(line);
            let ghost before_push = files.files@;
            files.files.push(placeholder);
            assert(files.files@.drop_last() =~= before_push);
            RefreshPackage { new_files: Some(files.files), new_buffer: Some(buffer), new_len: 1 }
        }
    }
}

/// Applies one event to the files, noting what was created, changed and
/// removed.
#[verifier::rlimit(50)]
fn apply_event(
    files: &mut Vec<File>,
    created: &mut Vec<File>,
    changed: &mut Vec<Vec<char>>,
    deleted: &mut Vec<Vec<char>>,
    static_paths: &Vec<Vec<char>>,
    ev: FsEvent,
    Ghost(st): Ghost<Seq<FileView>>,
    Ghost(evs): Ghost<Seq<FsEvent>>,
)
    requires
        chars_of(static_paths@) == paths_of(st),
        st.len() == old(files)@.len(),
        views(old(files)@) == apply_events(st, evs).files,
        views(old(created)@) == apply_events(st, evs).created,
        chars_of(old(changed)@) == apply_events(st, evs).changed,
        chars_of(old(deleted)@) == apply_events(st, evs).deleted,
    ensures
        final(files)@.len() == old(files)@.len(),
        views(final(files)@) == apply_events(st, evs.push(ev)).files,
        views(final(created)@) == apply_events(st, evs.push(ev)).created,
        chars_of(final(changed)@) == apply_events(st, evs.push(ev)).changed,
        chars_of(final(deleted)@) == apply_events(st, evs.push(ev)).deleted,
{
    assert(evs.push(ev).drop_last() =~= evs);
    let ghost a = apply_events(st, evs);
    match ev {
        FsEvent::Create(f) => {
            let ghost prev = views(created@);
            created.push(f);
            assert(views(created@) =~= prev.push(f@));
        },
        FsEvent::Change(f) => {
            let fp = str_to_chars(f.path.as_str());
            proof {
                lemma_last_with_path_index(st, f@.path);
            }
            match last_position(static_paths, &fp) {
                Some(p) => {
                    let ghost fview = f@;
                    let ghost prev = views(files@);
                    files[p].meta = f.meta;
                    files[p].dirsize = f.dirsize;
                    files[p].target = f.target;
                    files[p].meta_processed = f.meta_processed;
                    assert(views(files@) =~= prev.update(p as int, with_meta_of(prev[p as int], fview)));
                    let ghost prevc = chars_of(changed@);
                    changed.push(fp);
                    assert(chars_of(changed@) =~= prevc.push(fview.path));
                },
                None => {},
            }
        },
        FsEvent::Rename(o, n) => {
            let op = str_to_chars(o.path.as_str());
            proof {
                lemma_last_with_path_index(st, o@.path);
            }
            match last_position(static_paths, &op) {
                Some(p) => {
                    match file_name_of(n.path.as_str()) {
                        Some(name) => {
                            let ghost nview = n@;
                            let ghost prev = views(files@);
                            files[p].name = name;
                            files[p].path = n.path;
                            files[p].meta = n.meta;
                            files[p].dirsize = n.dirsize;
                            files[p].target = n.target;
                            files[p].meta_processed = n.meta_processed;
                            assert(views(files@) =~= prev.update(p as int, renamed(prev[p as int], nview)));
                        },
                        None => {},
                    }
                },
                None => {},
            }
        },
        FsEvent::Remove(f) => {
            let fp = str_to_chars(f.path.as_str());
            proof {
                lemma_last_with_path_index(st, f@.path);
            }
            if last_position(static_paths, &fp).is_some() {
                let ghost prevd = chars_of(deleted@);
                deleted.push(fp);
                assert(chars_of(deleted@) =~= prevd.push(f@.path));
            }
        },
    }
}

proof fn lemma_apply_events_len(st: Seq<FileView>, evs: Seq<FsEvent>)
    ensures
        apply_events(st, evs).files.len() == st.len(),
    decreases evs.len(),
{
    if evs.len() > 0 {
        lemma_apply_events_len(st, evs.drop_last());
        lemma_last_with_path_index(st, Seq::empty());
        match evs.last() {
            FsEvent::Change(f) => {
                lemma_last_with_path_index(st, f@.path);
            },
            FsEvent::Rename(o, n) => {
                lemma_last_with_path_index(st, o@.path);
            },
            _ => {},
        }
    }
}

} // verus!
