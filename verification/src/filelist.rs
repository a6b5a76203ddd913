//! The list of a directory's files: the file under the cursor, choosing a
//! file, sorting and showing hidden files without losing the chosen file,
//! selecting files, and searching names.
use vstd::prelude::*;
use crate::files::{
    File, FileView, Files, Kind, SortBy, in_list_order, sorted_by, total_on, contains_seq, contains_chars, filtered, lemma_shown_positions_bound,
    lemma_shown_positions_increasing, opt_view, shown_positions, views,
};
use crate::dirty::Dirtyable;
use crate::minibuffer::MiniBufferEvent;
use crate::tags::{TagError, Tags};
use crate::actions::FileListAction;
use crate::listview::{ListView, down, down_ok, offset_for};
use crate::text::{chars_to_string, str_to_chars, chars_eq};

verus! {

/// The index in the shown list `sv` of the first shown file whose path is
/// `path`.
pub open spec fn shown_index(files: Seq<FileView>, sv: Seq<int>, path: Seq<char>) -> Option<int>
    decreases sv.len(),
{
    if sv.len() == 0 {
        None
    } else {
        match shown_index(files, sv.drop_last(), path) {
            Some(i) => Some(i),
            None => if files[sv.last()].path == path {
                Some(sv.len() - 1)
            } else {
                None
            },
        }
    }
}

/// `"true"` or `"false"`, as `Display` writes a `bool`.
pub open spec fn bool_text(b: bool) -> Seq<char> {
    if b {
        "true"@
    } else {
        "false"@
    }
}

fn bool_string(b: bool) -> (r: String)
    ensures
        r@ == bool_text(b),
{
    if b {
        String::from_str("true")
    } else {
        String::from_str("false")
    }
}

fn join(a: &str, b: &str) -> (r: String)
    ensures
        r@ == a@ + b@,
{
    let mut v = str_to_chars(a);
    let w = str_to_chars(b);
    let mut i: usize = 0;
    let ghost start = v@;
    while i < w.len()
        invariant
            i <= w@.len(),
            v@ == start + w@.take(i as int),
        decreases w.len() - i,
    {
        v.push(w[i]);
        i += 1;
        assert(v@ =~= start + w@.take(i as int));
    }
    assert(w@.take(w@.len() as int) =~= w@);
    chars_to_string(&v)
}

/// The lowercase form of `s`, as `str::to_lowercase` gives it.
pub uninterp spec fn lowercase(s: Seq<char>) -> Seq<char>;

/// `str::to_lowercase`; its result is named `lowercase`.
#[verifier::external_body]
fn to_lowercase(s: &str) -> (r: String)
    ensures
        r@ == lowercase(s@),
{
    s.to_lowercase()
}

/// The first position `k` from `from` on (in all of `files`, shown or not)
/// whose lowercase name holds `pattern`.
pub open spec fn next_match(files: Seq<FileView>, from: int, pattern: Seq<char>) -> Option<int>
    decreases files.len() - from,
{
    if from >= files.len() {
        None
    } else if contains_seq(lowercase(files[from].name), pattern) {
        Some(from)
    } else {
        next_match(files, from + 1, pattern)
    }
}

/// The name of an order, as the status line shows it.
pub open spec fn sort_text(s: SortBy) -> Seq<char> {
    match s {
        SortBy::Name => "name"@,
        SortBy::Size => "size"@,
        SortBy::MTime => "mtime"@,
    }
}

impl ListView<Files> {
    /// The shown files, by their positions in `files`.
    pub open spec fn shown(&self) -> Seq<int> {
        self.content.shown_view()
    }

    /// The position in `files` of the file the list has chosen: the shown
    /// file at the cursor, or the first shown file where the cursor is past
    /// the end.
    pub open spec fn cursor_file(&self) -> Option<int> {
        let sv = self.shown();
        if self.selection < sv.len() {
            Some(sv[self.selection as int])
        } else if sv.len() > 0 {
            Some(sv[0])
        } else {
            None
        }
    }

    /// Where `select_file` puts the cursor for a file at `path`.
    pub open spec fn index_of_path(&self, path: Seq<char>) -> Option<int> {
        shown_index(views(self.content.files@), self.shown(), path)
    }

    /// The position in `files` of the chosen file (see `cursor_file`).
    pub fn selected_position(&self) -> (r: Option<usize>)
        ensures
            r matches Some(p) ==> self.cursor_file() == Some(p as int) && p < self.content.files@.len(),
            r is None ==> self.cursor_file() is None,
    {
        let v = self.content.visible_positions();
        proof {
            lemma_shown_positions_bound(
                views(self.content.files@),
                self.content.filter_view(),
                self.content.filter_selected,
                self.content.show_hidden,
            );
        }
        assert(v@.len() == self.shown().len()) by {
            assert(v@.map_values(|p: usize| p as int).len() == v@.len());
        }
        if self.selection < v.len() {
            assert(v@.map_values(|p: usize| p as int)[self.selection as int] == v@[self.selection as int] as int);
            Some(v[self.selection])
        } else if v.len() > 0 {
            assert(v@.map_values(|p: usize| p as int)[0] == v@[0] as int);
            Some(v[0])
        } else {
            None
        }
    }

    /// The chosen file (see `cursor_file`).
    pub fn selected_file(&self) -> (r: Option<&File>)
        ensures
            match self.cursor_file() {
                Some(p) => r matches Some(f) && *f == self.content.files@[p],
                None => r is None,
            },
    {
        match self.selected_position() {
            Some(p) => Some(&self.content.files[p]),
            None => None,
        }
    }

    /// The path of the chosen file.
    fn selected_path(&self) -> (r: Option<String>)
        ensures
            match self.cursor_file() {
                Some(p) => r matches Some(s) && s@ == self.content.files@[p].path@,
                None => r is None,
            },
    {
        match self.selected_position() {
            Some(p) => Some(self.content.files[p].path.clone()),
            None => None,
        }
    }

    /// The index in the shown list of the first shown file at `path`.
    fn find_index(&self, path: &str) -> (r: Option<usize>)
        ensures
            match self.index_of_path(path@) {
                Some(i) => r == Some(i as usize) && 0 <= i < self.content.files@.len(),
                None => r is None,
            },
    {
        let v = self.content.visible_positions();
        let want = str_to_chars(path);
        let ghost fv = views(self.content.files@);
        let ghost sv = self.shown();
        proof {
            lemma_shown_positions_bound(
                views(self.content.files@),
                self.content.filter_view(),
                self.content.filter_selected,
                self.content.show_hidden,
            );
        }
        assert(v@.len() == sv.len()) by {
            assert(v@.map_values(|p: usize| p as int).len() == v@.len());
        }
        let mut i: usize = 0;
        assert(sv.take(0) =~= Seq::<int>::empty());
        while i < v.len()
            invariant
                i <= v@.len(),
                v@.len() == sv.len(),
                v@.map_values(|p: usize| p as int) == sv,
                sv == self.shown(),
                fv == views(self.content.files@),
                want@ == path@,
                sv.len() <= self.content.files@.len(),
                forall|k: int| 0 <= k < sv.len() ==> 0 <= #[trigger] sv[k] < self.content.files@.len(),
                shown_index(fv, sv.take(i as int), path@) is None,
            decreases v.len() - i,
        {
            let p = v[i];
            assert(sv[i as int] == p as int);
            assert(sv.take(i + 1).drop_last() =~= sv.take(i as int));
            let name = str_to_chars(self.content.files[p].path.as_str());
            if chars_eq(&name, &want) {
                assert(shown_index(fv, sv.take(i + 1), path@) == Some(i as int));
                proof {
                    lemma_shown_index_prefix(fv, sv, (i + 1) as int, path@);
                }
                return Some(i);
            }
            i += 1;
        }
        assert(sv.take(i as int) =~= sv);
        None
    }

    /// Puts the cursor on the first shown file at `file`'s path, or on the
    /// first line where no shown file is there.
    pub fn select_file(&mut self, file: &File)
        requires
            old(self).content.files@.len() + 2 < usize::MAX,
        ensures
            match old(self).index_of_path(file.path@) {
                Some(i) => final(self).selection == i && final(self).offset == offset_for(
                    i,
                    old(self).ysize_spec(),
                ),
                None => final(self).selection == 0 && final(self).offset == offset_for(0, old(self).ysize_spec()),
            },
            final(self).content == old(self).content,
            final(self).coordinates == old(self).coordinates,
            final(self).seeking == old(self).seeking,
            final(self).searching == old(self).searching,
    {
        match self.find_index(file.path.as_str()) {
            Some(i) => self.set_selection(i),
            None => self.set_selection(0),
        }
    }

    /// Switches to the next order (name, size, time of change) and sorts,
    /// keeping the chosen file chosen; returns the status line's text.
    pub fn cycle_sort(&mut self) -> (msg: String)
        requires
            old(self).content.files@.len() + 2 < usize::MAX,
        ensures
            final(self).content.sort == next_sort(old(self).content.sort),
            resorted(&old(self).content, &final(self).content),
            reselected(old(self), final(self)),
            final(self).content.dirs_first == old(self).content.dirs_first,
            final(self).content.show_hidden == old(self).content.show_hidden,
            final(self).content.filter == old(self).content.filter,
            final(self).content.len == old(self).content.len,
            msg@ == "Sorting by: "@ + sort_text(final(self).content.sort),
    {
        let path = self.selected_path();
        self.content.cycle_sort();
        self.content.sort();
        self.select_path(&path);
        join("Sorting by: ", self.content.sort.to_string().as_str())
    }

    /// Flips the reverse setting and sorts again, keeping the chosen file
    /// chosen; returns the status line's text.
    pub fn reverse_sort(&mut self) -> (msg: String)
        requires
            old(self).content.files@.len() + 2 < usize::MAX,
        ensures
            final(self).content.reverse == !old(self).content.reverse,
            final(self).content.sort == old(self).content.sort,
            final(self).searching == old(self).searching,
            final(self).coordinates == old(self).coordinates,
            resorted(&old(self).content, &final(self).content),
            reselected(old(self), final(self)),
            final(self).content.dirs_first == old(self).content.dirs_first,
            final(self).content.show_hidden == old(self).content.show_hidden,
            final(self).content.filter == old(self).content.filter,
            final(self).content.len == old(self).content.len,
            msg@ == "Reversed sorting by: "@ + sort_text(final(self).content.sort),
    {
        let path = self.selected_path();
        self.content.reverse_sort();
        self.content.sort();
        self.select_path(&path);
        join("Reversed sorting by: ", self.content.sort.to_string().as_str())
    }

    /// Flips whether directories come first and sorts again, keeping the
    /// chosen file chosen; returns the status line's text.
    pub fn toggle_dirs_first(&mut self) -> (msg: String)
        requires
            old(self).content.files@.len() + 2 < usize::MAX,
        ensures
            final(self).content.dirs_first == !old(self).content.dirs_first,
            final(self).content.sort == old(self).content.sort,
            resorted(&old(self).content, &final(self).content),
            reselected(old(self), final(self)),
            final(self).content.show_hidden == old(self).content.show_hidden,
            final(self).content.filter == old(self).content.filter,
            final(self).content.len == old(self).content.len,
            msg@ == "Direcories first: "@ + bool_text(final(self).content.dirs_first),
    {
        let path = self.selected_path();
        self.content.dirs_first = !self.content.dirs_first;
        self.content.sort();
        self.select_path(&path);
        join("Direcories first: ", bool_string(self.content.dirs_first).as_str())
    }

    /// Shows or hides hidden files, keeping the chosen file chosen; returns
    /// the status line's text.
    pub fn toggle_hidden(&mut self) -> (msg: String)
        requires
            old(self).content.files@.len() + 2 < usize::MAX,
        ensures
            final(self).content.show_hidden == !old(self).content.show_hidden,
            final(self).content.filter == old(self).content.filter,
            final(self).content.files@.len() <= old(self).content.files@.len(),
            reselected(old(self), final(self)),
            msg@ == "Showing hidden files: "@ + bool_text(final(self).content.show_hidden),
    {
        let path = self.selected_path();
        self.content.toggle_hidden();
        self.select_path(&path);
        join("Showing hidden files: ", bool_string(self.content.show_hidden).as_str())
    }

    /// Flips the selection of the chosen file. Unless only selected files
    /// are shown, the cursor then moves down a line; where they are and
    /// none is counted any more, that filter is switched off, and the status
    /// line's text says so.
    pub fn multi_select_file(&mut self) -> (msg: Option<String>)
        requires
            down_ok(
                old(self).selection,
                old(self).offset,
                old(self).content.len,
                old(self).ysize_spec(),
            ),
        ensures
            match old(self).cursor_file() {
                Some(p) => views(final(self).content.files@) == views(
                    old(self).content.files@,
                ).update(p, flipped(old(self).content.files@[p]@)),
                None => final(self).content.files == old(self).content.files,
            },
            !old(self).content.filter_selected ==> (final(self).selection, final(self).offset)
                == down(
                old(self).selection,
                old(self).offset,
                old(self).content.len,
                old(self).ysize_spec(),
            ) && msg is None && final(self).content.filter_selected == old(self).content.filter_selected,
            old(self).content.filter_selected ==> final(self).selection == old(self).selection
                && final(self).offset == old(self).offset,
            (old(self).content.filter_selected && old(self).content.len == 0) ==> (msg matches Some(
                m,
            ) && m@ == "Disabled selection filter!"@) && !final(self).content.filter_selected,
            (old(self).content.filter_selected && old(self).content.len != 0) ==> msg is None
                && final(self).content.filter_selected,
            final(self).content.len == old(self).content.len,
            final(self).content.filter == old(self).content.filter,
            final(self).content.show_hidden == old(self).content.show_hidden,
            final(self).content.sort == old(self).content.sort,
            final(self).content.directory == old(self).content.directory,
            final(self).coordinates == old(self).coordinates,
    {
        match self.selected_position() {
            Some(p) => {
                let ghost before = views(self.content.files@);
                let sel = self.content.files[p].selected;
                self.content.files[p].selected = !sel;
                assert(views(self.content.files@) =~= before.update(
                    p as int,
                    flipped(old(self).content.files@[p as int]@),
                ));
            },
            None => {},
        }
        if !self.content.filter_selected {
            self.move_down();
            None
        } else if self.content.len == 0 {
            self.content.filter_selected = false;
            Some(String::from_str("Disabled selection filter!"))
        } else {
            None
        }
    }

    /// Flips the selection of every shown file; where only selected files
    /// are shown and none is counted, that filter is switched off (the
    /// status line's text says so).
    pub fn invert_selection(&mut self) -> (msg: Option<String>)
        ensures
            views(final(self).content.files@) == mark_at(views(old(self).content.files@), old(self).shown(), true),
            final(self).content.dirty.0,
            (old(self).content.filter_selected && old(self).content.len == 0) ==> (msg matches Some(
                m,
            ) && m@ == "Disabled selection filter!"@) && !final(self).content.filter_selected,
            !(old(self).content.filter_selected && old(self).content.len == 0) ==> msg is None
                && final(self).content.filter_selected == old(self).content.filter_selected,
            final(self).content.len == old(self).content.len,
            final(self).content.filter == old(self).content.filter,
            final(self).content.show_hidden == old(self).content.show_hidden,
            final(self).selection == old(self).selection,
            final(self).offset == old(self).offset,
    {
        self.update_shown(true);
        let msg = if self.content.filter_selected && self.content.len == 0 {
            self.content.filter_selected = false;
            Some(String::from_str("Disabled selection filter!"))
        } else {
            None
        };
        self.content.dirty.set_dirty();
        msg
    }

    /// Unselects every shown file.
    pub fn clear_selections(&mut self)
        ensures
            views(final(self).content.files@) == mark_at(views(old(self).content.files@), old(self).shown(), false),
            final(self).content.dirty.0,
            final(self).content.len == old(self).content.len,
            final(self).content.filter == old(self).content.filter,
            final(self).content.filter_selected == old(self).content.filter_selected,
            final(self).content.show_hidden == old(self).content.show_hidden,
            final(self).selection == old(self).selection,
            final(self).offset == old(self).offset,
    {
        self.update_shown(false);
        self.content.dirty.set_dirty();
    }

    /// Flips (`flip`) or clears the selection of every shown file.
    fn update_shown(&mut self, flip: bool)
        ensures
            views(final(self).content.files@) == mark_at(views(old(self).content.files@), old(self).shown(), flip),
            *final(self) == (ListView { content: Files { files: final(self).content.files, ..old(self).content }, ..*old(self) }),
    {
        let v = self.content.visible_positions();
        let ghost sv = self.shown();
        let ghost fv0 = views(self.content.files@);
        proof {
            lemma_shown_positions_bound(
                views(self.content.files@),
                self.content.filter_view(),
                self.content.filter_selected,
                self.content.show_hidden,
            );
            lemma_shown_positions_increasing(
                views(self.content.files@),
                self.content.filter_view(),
                self.content.filter_selected,
                self.content.show_hidden,
            );
        }
        assert(v@.len() == sv.len()) by {
            assert(v@.map_values(|p: usize| p as int).len() == v@.len());
        }
        let mut i: usize = 0;
        while i < v.len()
            invariant
                i <= v@.len(),
                v@.len() == sv.len(),
                v@.map_values(|p: usize| p as int) == sv,
                self.content.files@.len() == fv0.len(),
                forall|k: int| 0 <= k < sv.len() ==> 0 <= #[trigger] sv[k] < fv0.len(),
                forall|a: int, b: int| 0 <= a < b < sv.len() ==> sv[a] < sv[b],
                views(self.content.files@) == mark_at(fv0, sv.take(i as int), flip),
                *self == (ListView { content: Files { files: self.content.files, ..old(self).content }, ..*old(self) }),
            decreases v.len() - i,
        {
            let p = v[i];
            assert(sv[i as int] == p as int);
            let ghost before = views(self.content.files@);
            if flip {
                let sel = self.content.files[p].selected;
                self.content.files[p].selected = !sel;
                
            } else {
                self.content.files[p].selected = false;
                
            }
            assert(views(self.content.files@) =~= before.update(p as int, mark(before[p as int], flip)));
            let ghost t1 = sv.take(i + 1);
            let ghost t0 = sv.take(i as int);
            assert(views(self.content.files@) =~= mark_at(fv0, t1, flip)) by {
                assert forall|k: int| 0 <= k < fv0.len() implies views(self.content.files@)[k]
                    == mark_at(fv0, t1, flip)[k] by {
                    if k == p {
                        assert(t1[i as int] == k);
                        assert(t1.contains(k));
                        if t0.contains(k) {
                            let j = choose|j: int| 0 <= j < t0.len() && #[trigger] t0[j] == k;
                            assert(sv[j] < sv[i as int]);
                        }
                    } else {
                        if t1.contains(k) {
                            let j = choose|j: int| 0 <= j < t1.len() && #[trigger] t1[j] == k;
                            assert(j < i);
                            assert(t0[j] == k);
                        }
                        if t0.contains(k) {
                            let j = choose|j: int| 0 <= j < t0.len() && #[trigger] t0[j] == k;
                            assert(t1[j] == k);
                        }
                        assert(t1.contains(k) == t0.contains(k));
                    }
                }
            }
            i += 1;
        }
        assert(sv.take(i as int) =~= sv);
    }

    /// The first position from `from` on whose lowercase name holds `pattern`.
    fn find_match(&self, from: usize, pattern: &str) -> (r: Option<usize>)
        ensures
            match next_match(views(self.content.files@), from as int, pattern@) {
                Some(k) => r == Some(k as usize) && from <= k < self.content.files@.len(),
                None => r is None,
            },
        decreases self.content.files@.len() - from,
    {
        if from >= self.content.files.len() {
            return None;
        }
        let name = to_lowercase(self.content.files[from].name.as_str());
        let n = str_to_chars(name.as_str());
        let q = str_to_chars(pattern);
        if contains_chars(&n, &q) {
            Some(from)
        } else {
            self.find_match(from + 1, pattern)
        }
    }

    /// Puts the cursor on the next file (after the cursor's line, counted
    /// in all the files) whose lowercase name holds the search pattern. The
    /// text for the status line comes back where there is no pattern or no
    /// further match.
    pub fn search_next(&mut self) -> (msg: Option<String>)
        requires
            old(self).selection < usize::MAX,
            old(self).content.files@.len() + 2 < usize::MAX,
        ensures
            final(self).content == old(self).content,
            final(self).searching == old(self).searching,
            match old(self).searching {
                None => (msg matches Some(m) && m@ == "No search pattern set!"@) && final(self).selection == old(self).selection && final(self).offset == old(self).offset,
                Some(pat) => match next_match(
                    views(old(self).content.files@),
                    old(self).selection + 1,
                    pat@,
                ) {
                    Some(k) => msg is None && match old(self).index_of_path(
                        old(self).content.files@[k].path@,
                    ) {
                        Some(i) => final(self).selection == i && final(self).offset == offset_for(
                            i,
                            old(self).ysize_spec(),
                        ),
                        None => final(self).selection == 0 && final(self).offset == offset_for(
                            0,
                            old(self).ysize_spec(),
                        ),
                    },
                    None => (msg matches Some(m) && m@ == "Reached last search result!"@)
                        && final(self).selection == old(self).selection && final(self).offset
                        == old(self).offset,
                },
            },
    {
        let pattern = match &self.searching {
            Some(p) => p.clone(),
            None => return Some(String::from_str("No search pattern set!")),
        };
        match self.find_match(self.selection + 1, pattern.as_str()) {
            Some(k) => {
                let path = Some(self.content.files[k].path.clone());
                self.select_path(&path);
                None
            },
            None => Some(String::from_str("Reached last search result!")),
        }
    }

    /// As `search_next`, between sorting again twice (flipping the reverse
    /// setting there and back, the chosen file kept chosen).
    pub fn search_prev(&mut self) -> (msg: Option<String>)
        requires
            old(self).content.files@.len() + 2 < usize::MAX,
        ensures
            final(self).content.reverse == old(self).content.reverse,
            final(self).content.sort == old(self).content.sort,
            final(self).content.filter == old(self).content.filter,
            final(self).content.files@.len() == old(self).content.files@.len(),
            views(final(self).content.files@).to_multiset() == views(
                old(self).content.files@,
            ).to_multiset(),
            final(self).searching == old(self).searching,
            old(self).searching is None ==> (msg matches Some(m) && m@ == "No search pattern set!"@),
    {
        let pattern = match &self.searching {
            Some(p) => p.clone(),
            None => return Some(String::from_str("No search pattern set!")),
        };
        self.reverse_sort();
        let sel = self.selection;
        let found = if sel < usize::MAX {
            self.find_match(sel + 1, pattern.as_str())
        } else {
            None
        };
        let path = match found {
            Some(k) => Some(self.content.files[k].path.clone()),
            None => None,
        };
        self.reverse_sort();
        match path {
            Some(_) => {
                self.select_path(&path);
                None
            },
            None => Some(String::from_str("Reached last search result!")),
        }
    }

    /// Sets the name filter (see `filtered`); where that changed the count,
    /// the cursor goes back to the chosen file.
    pub fn set_filter(&mut self, filter: Option<String>)
        requires
            old(self).content.files@.len() + 3 < usize::MAX,
        ensures
            filtered(&old(self).content, opt_view(filter), &final(self).content),
            final(self).content.files@.len() <= old(self).content.files@.len() + 1,
            final(self).content.filter == filter,
            final(self).content.filter_selected == old(self).content.filter_selected,
            final(self).content.show_hidden == old(self).content.show_hidden,
            final(self).content.directory == old(self).content.directory,
            final(self).content.len != old(self).content.len ==> reselected(old(self), final(self)),
            final(self).content.len == old(self).content.len ==> final(self).selection == old(self).selection && final(self).offset == old(self).offset,
    {
        let prev_len = self.content.len;
        let path = self.selected_path();
        self.content.set_filter(filter);
        if self.content.len != prev_len {
            self.select_path(&path);
        }
    }

    /// The index in the shown list of the first shown file whose lowercase
    /// name holds `pattern`.
    fn find_shown_match(&self, pattern: &str) -> (r: Option<usize>)
        ensures
            match first_shown_match(views(self.content.files@), self.shown(), pattern@) {
                Some(i) => r == Some(i as usize) && 0 <= i < self.shown().len() && i
                    < self.content.files@.len(),
                None => r is None,
            },
    {
        let v = self.content.visible_positions();
        let ghost fv = views(self.content.files@);
        let ghost sv = self.shown();
        proof {
            lemma_shown_positions_bound(
                views(self.content.files@),
                self.content.filter_view(),
                self.content.filter_selected,
                self.content.show_hidden,
            );
        }
        assert(v@.len() == sv.len()) by {
            assert(v@.map_values(|p: usize| p as int).len() == v@.len());
        }
        let q = str_to_chars(pattern);
        let mut i: usize = 0;
        assert(sv.take(0) =~= Seq::<int>::empty());
        while i < v.len()
            invariant
                i <= v@.len(),
                v@.len() == sv.len(),
                v@.map_values(|p: usize| p as int) == sv,
                sv == self.shown(),
                fv == views(self.content.files@),
                q@ == pattern@,
                sv.len() <= self.content.files@.len(),
                forall|k: int| 0 <= k < sv.len() ==> 0 <= #[trigger] sv[k] < self.content.files@.len(),
                first_shown_match(fv, sv.take(i as int), pattern@) is None,
            decreases v.len() - i,
        {
            let p = v[i];
            assert(sv[i as int] == p as int);
            assert(sv.take(i + 1).drop_last() =~= sv.take(i as int));
            let name = to_lowercase(self.content.files[p].name.as_str());
            let n = str_to_chars(name.as_str());
            if contains_chars(&n, &q) {
                assert(first_shown_match(fv, sv.take(i + 1), pattern@) == Some(i as int));
                proof {
                    lemma_first_shown_match_prefix(fv, sv, (i + 1) as int, pattern@);
                }
                return Some(i);
            }
            i += 1;
        }
        assert(sv.take(i as int) =~= sv);
        None
    }

    /// Follows the search prompt: each new input puts the cursor on the
    /// first shown file whose lowercase name holds it (and becomes the
    /// search pattern); giving up or an empty input goes back to the file
    /// `saved` (the one chosen when the search began); cycling searches on.
    /// Returns whether the prompt goes on, and the status line's text.
    pub fn search_event(&mut self, event: &MiniBufferEvent, saved: &Option<String>) -> (r: (
        bool,
        Option<String>,
    ))
        requires
            old(self).content.files@.len() + 3 < usize::MAX,
            old(self).selection < usize::MAX,
        ensures
            final(self).content.files@.len() == old(self).content.files@.len(),
            final(self).content.filter == old(self).content.filter,
            r.0 == (*event matches MiniBufferEvent::NewInput(_)),
            match *event {
                MiniBufferEvent::NewInput(input) => {
                    &&& final(self).content == old(self).content
                    &&& final(self).searching == Some(input)
                    &&& r.1 is None
                    &&& match first_shown_match(
                        views(old(self).content.files@),
                        old(self).shown(),
                        input@,
                    ) {
                        Some(i) => final(self).selection == i && final(self).offset == offset_for(
                            i,
                            old(self).ysize_spec(),
                        ),
                        None => final(self).selection == old(self).selection && final(self).offset
                            == old(self).offset,
                    }
                },
                MiniBufferEvent::Done(_) => final(self).selection == old(self).selection
                    && final(self).offset == old(self).offset && final(self).content == old(
                    self).content && r.1 is None,
                MiniBufferEvent::Empty | MiniBufferEvent::Cancelled => final(self).content == old(
                    self).content && r.1 is None && match saved {
                    Some(p) => match old(self).index_of_path(p@) {
                        Some(i) => final(self).selection == i && final(self).offset == offset_for(
                            i,
                            old(self).ysize_spec(),
                        ),
                        None => final(self).selection == 0 && final(self).offset == offset_for(
                            0,
                            old(self).ysize_spec(),
                        ),
                    },
                    None => final(self).selection == old(self).selection && final(self).offset
                        == old(self).offset,
                },
                MiniBufferEvent::CycleNext => final(self).content == old(self).content,
                MiniBufferEvent::CyclePrev => true,
            },
    {
        match event {
            MiniBufferEvent::NewInput(input) => {
                match self.find_shown_match(input.as_str()) {
                    Some(i) => self.set_selection(i),
                    None => {},
                }
                self.searching = Some(input.clone());
                (true, None)
            },
            MiniBufferEvent::Done(_) => (false, None),
            MiniBufferEvent::Empty | MiniBufferEvent::Cancelled => {
                self.select_path(saved);
                (false, None)
            },
            MiniBufferEvent::CycleNext => {
                let m = self.search_next();
                (false, m)
            },
            MiniBufferEvent::CyclePrev => {
                let m = self.search_prev();
                (false, m)
            },
        }
    }

    /// Follows the filter prompt: each new input becomes the name filter; a
    /// finished input too (with a status line's text), an empty one clears
    /// it, and giving up restores the filter `prev` and goes back to the
    /// file `saved` (both as they were when filtering began). Returns
    /// whether the prompt goes on, and the status line's text.
    pub fn filter_event(
        &mut self,
        event: &MiniBufferEvent,
        saved: &Option<String>,
        prev: &Option<String>,
    ) -> (r: (bool, Option<String>))
        requires
            old(self).content.files@.len() + 4 < usize::MAX,
        ensures
            r.0 == (*event matches MiniBufferEvent::NewInput(_)),
            match *event {
                MiniBufferEvent::NewInput(input) => final(self).content.filter == Some(input)
                    && filtered(&old(self).content, Some(input@), &final(self).content) && r.1 is None,
                MiniBufferEvent::Done(f) => final(self).content.filter == Some(f) && filtered(
                    &old(self).content,
                    Some(f@),
                    &final(self).content,
                ) && (r.1 matches Some(m) && m@ == "Filtering with: \""@ + f@ + "\""@),
                MiniBufferEvent::Empty => final(self).content.filter is None && filtered(
                    &old(self).content,
                    None,
                    &final(self).content,
                ) && r.1 is None,
                MiniBufferEvent::Cancelled => final(self).content.filter == *prev && r.1 is None,
                MiniBufferEvent::CycleNext | MiniBufferEvent::CyclePrev => *final(self) == *old(
                    self) && r.1 is None,
            },
    {
        match event {
            MiniBufferEvent::NewInput(input) => {
                self.set_filter(Some(input.clone()));
                (true, None)
            },
            MiniBufferEvent::Done(f) => {
                let msg = join(join("Filtering with: \"", f.as_str()).as_str(), "\"");
                self.set_filter(Some(f.clone()));
                (false, Some(msg))
            },
            MiniBufferEvent::Empty => {
                self.set_filter(None);
                (false, None)
            },
            MiniBufferEvent::Cancelled => {
                self.set_filter(prev.clone());
                self.select_path(saved);
                (false, None)
            },
            MiniBufferEvent::CycleNext | MiniBufferEvent::CyclePrev => (false, None),
        }
    }

    /// Shows only the selected files, or all again; where none is counted
    /// with only selected files shown, the setting goes back (the status
    /// line's text says so). A cursor past the end goes to the last line.
    pub fn toggle_filter_selected(&mut self) -> (msg: Option<String>)
        ensures
            old(self).content.len == 0 ==> (msg matches Some(m) && m@ == "No files selected"@)
                && final(self).content.filter_selected == old(self).content.filter_selected,
            old(self).content.len != 0 ==> msg is None && final(self).content.filter_selected
                == !old(self).content.filter_selected,
            final(self).content.files == old(self).content.files,
            final(self).content.len == old(self).content.len,
            final(self).selection == (if old(self).selection >= old(self).content.len
                && old(self).content.len != 0 {
                (old(self).content.len - 1) as usize
            } else {
                old(self).selection
            }),
            final(self).offset == old(self).offset,
    {
        self.content.toggle_filter_selected();
        let msg = if self.content.len == 0 {
            self.content.toggle_filter_selected();
            Some(String::from_str("No files selected"))
        } else {
            None
        };
        self.refresh();
        msg
    }

    /// Before drawing: where nothing is counted, the placeholder stands in
    /// (counted alone); a cursor past the end goes to the last line.
    pub fn refresh_list(&mut self)
        ensures
            old(self).content.len == 0 ==> views(final(self).content.files@) == views(
                old(self).content.files@,
            ).push(crate::files::placeholder_view(old(self).content.directory.path@))
                && final(self).content.len == 1 && final(self).selection == 0,
            old(self).content.len != 0 ==> final(self).content.files == old(self).content.files
                && final(self).content.len == old(self).content.len && final(self).selection == (
            if old(self).selection >= old(self).content.len {
                (old(self).content.len - 1) as usize
            } else {
                old(self).selection
            }),
            final(self).offset == old(self).offset,
            final(self).content.filter == old(self).content.filter,
            final(self).content.directory == old(self).content.directory,
    {
        if self.content.len == 0 {
            let ghost before = views(self.content.files@);
            let placeholder = File::new_placeholder(self.content.directory.path.as_str());
            self.content.files.push(placeholder);
            assert(views(self.content.files@) =~= before.push(
                crate::files::placeholder_view(old(self).content.directory.path@),
            ));
            self.content.len = 1;
        }
        self.refresh();
    }

    /// Flips the chosen file's tag (recorded in `tags`) and moves the
    /// cursor down a line; an error, and nothing changed, where the tag had
    /// to be looked up before the tag file was read.
    pub fn toggle_tag(&mut self, tags: &mut Tags) -> (r: Result<(), TagError>)
        requires
            down_ok(
                old(self).selection,
                old(self).offset,
                old(self).content.len,
                old(self).ysize_spec(),
            ),
        ensures
            r is Ok ==> (final(self).selection, final(self).offset) == down(
                old(self).selection,
                old(self).offset,
                old(self).content.len,
                old(self).ysize_spec(),
            ),
            r is Err ==> final(self).selection == old(self).selection && final(self).offset == old(
                self).offset && views(final(self).content.files@) == views(old(self).content.files@),
            match old(self).cursor_file() {
                Some(p) => r is Ok ==> {
                    &&& final(self).content.files@.len() == old(self).content.files@.len()
                    &&& final(self).content.files@[p]@ == (crate::files::FileView {
                        tag: final(self).content.files@[p].tag,
                        ..old(self).content.files@[p]@
                    })
                    &&& forall|k: int| 0 <= k < old(self).content.files@.len() && k != p
                        ==> final(self).content.files@[k] == old(self).content.files@[k]
                },
                None => final(self).content.files == old(self).content.files && r is Ok,
            },
            final(self).content.len == old(self).content.len,
    {
        match self.selected_position() {
            Some(p) => {
                let mut f = self.content.files.remove(p);
                let res = f.toggle_tag(tags);
                self.content.files.insert(p, f);
                match res {
                    Ok(()) => {},
                    Err(e) => {
                        assert(views(self.content.files@) =~= views(old(self).content.files@));
                        return Err(e);
                    },
                }
            },
            None => {},
        }
        self.move_down();
        Ok(())
    }

    /// Steps to the file changed next (newer to older): the files are sorted
    /// by time of change alone, the cursor (on the chosen file) moves down a
    /// line while stepping goes on, or goes to the top when it starts or
    /// reaches the end; then the order is put back and the cursor goes to
    /// the file reached. Stepping goes on afterwards.
    pub fn select_next_mtime(&mut self)
        requires
            old(self).content.files@.len() + 3 < usize::MAX,
            old(self).offset <= old(self).selection,
        ensures
            final(self).seeking,
            final(self).content.sort == old(self).content.sort,
            final(self).content.dirs_first == old(self).content.dirs_first,
            final(self).content.files@.len() == old(self).content.files@.len(),
            views(final(self).content.files@).to_multiset() == views(
                old(self).content.files@,
            ).to_multiset(),
            final(self).content.len == old(self).content.len,
            final(self).content.filter == old(self).content.filter,
            final(self).content.show_hidden == old(self).content.show_hidden,
            final(self).searching == old(self).searching,
    {
        let path = self.selected_path();
        let dirs_first = self.content.dirs_first;
        let sort = self.content.sort;
        self.content.dirs_first = false;
        self.content.sort = SortBy::MTime;
        self.content.sort();
        self.select_path(&path);
        if !self.seeking || self.selection >= usize::MAX - 1 || self.selection + 1 >= self.content.len {
            self.selection = 0;
            self.offset = 0;
        } else {
            self.move_down();
        }
        let path = self.selected_path();
        self.content.dirs_first = dirs_first;
        self.content.sort = sort;
        self.content.sort();
        self.select_path(&path);
        self.seeking = true;
        self.refresh();
    }

    /// Steps to the file changed before (older to newer), as
    /// `select_next_mtime` does the other way: the cursor moves up a line
    /// while stepping goes on, or to the last line when it starts or
    /// reaches the top.
    pub fn select_prev_mtime(&mut self)
        requires
            old(self).content.files@.len() + 3 < usize::MAX,
            old(self).offset <= old(self).selection,
            old(self).ysize_spec() >= 1,
            old(self).content.len > 0,
            old(self).content.len + 1 < usize::MAX,
        ensures
            final(self).seeking,
            final(self).content.sort == old(self).content.sort,
            final(self).content.dirs_first == old(self).content.dirs_first,
            final(self).content.files@.len() == old(self).content.files@.len(),
            views(final(self).content.files@).to_multiset() == views(
                old(self).content.files@,
            ).to_multiset(),
            final(self).content.len == old(self).content.len,
            final(self).content.filter == old(self).content.filter,
            final(self).content.show_hidden == old(self).content.show_hidden,
            final(self).searching == old(self).searching,
    {
        let path = self.selected_path();
        let dirs_first = self.content.dirs_first;
        let sort = self.content.sort;
        self.content.dirs_first = false;
        self.content.sort = SortBy::MTime;
        self.content.sort();
        self.select_path(&path);
        if !self.seeking || self.selection == 0 {
            let last = self.content.len - 1;
            self.set_selection(last);
        } else {
            assert(self.offset <= self.selection) by {
                assert(self.selection + 1 >= self.ysize_spec() ==> self.offset == self.selection + 1 - self.ysize_spec()
                    || path is None);
            }
            self.move_up();
        }
        let path = self.selected_path();
        self.content.dirs_first = dirs_first;
        self.content.sort = sort;
        self.content.sort();
        self.select_path(&path);
        self.seeking = true;
        self.refresh();
    }

    /// Carries out a file list action; searching and filtering need a
    /// prompt, which the step asks for.
    pub fn do_action(&mut self, action: &FileListAction, tags: &mut Tags) -> (r: FileListStep)
        requires
            old(self).content.files@.len() + 4 < usize::MAX,
            old(self).content.len + 1 < usize::MAX,
            old(self).offset <= old(self).selection,
            old(self).selection + 1 < usize::MAX,
            old(self).ysize_spec() >= 1,
            down_ok(
                old(self).selection,
                old(self).offset,
                old(self).content.len,
                old(self).ysize_spec(),
            ),
            *action == FileListAction::ToPrevMtime ==> old(self).content.len > 0,
        ensures
            match *action {
                FileListAction::Search => r == FileListStep::Search && *final(self) == *old(self),
                FileListAction::Filter => r == FileListStep::Filter && *final(self) == *old(self),
                FileListAction::SearchNext => r is Done && final(self).content == old(self).content,
                FileListAction::SearchPrev => r is Done && final(self).content.filter == old(
                    self).content.filter,
                FileListAction::Select => r is Done && match old(self).cursor_file() {
                    Some(p) => views(final(self).content.files@) == views(
                        old(self).content.files@,
                    ).update(p, flipped(old(self).content.files@[p]@)),
                    None => final(self).content.files == old(self).content.files,
                },
                FileListAction::InvertSelection => r is Done && views(final(self).content.files@)
                    == mark_at(views(old(self).content.files@), old(self).shown(), true),
                FileListAction::ClearSelection => r == FileListStep::Done(None) && views(
                    final(self).content.files@,
                ) == mark_at(views(old(self).content.files@), old(self).shown(), false),
                FileListAction::FilterSelection => r is Done && (old(self).content.len != 0
                    ==> final(self).content.filter_selected == !old(self).content.filter_selected),
                FileListAction::ToggleTag => (r is Done || r is TagFailed) && final(self).content.len
                    == old(self).content.len,
                FileListAction::ToggleHidden => r is Done && final(self).content.show_hidden
                    == !old(self).content.show_hidden && reselected(old(self), final(self)),
                FileListAction::ReverseSort => r is Done && final(self).content.reverse == !old(
                    self).content.reverse && resorted(&old(self).content, &final(self).content)
                    && reselected(old(self), final(self)),
                FileListAction::CycleSort => r is Done && final(self).content.sort == next_sort(
                    old(self).content.sort,
                ) && resorted(&old(self).content, &final(self).content) && reselected(
                    old(self),
                    final(self),
                ),
                FileListAction::ToNextMtime | FileListAction::ToPrevMtime => r == FileListStep::Done(
                    None,
                ) && final(self).seeking && final(self).content.sort == old(self).content.sort
                    && final(self).content.dirs_first == old(self).content.dirs_first,
                FileListAction::ToggleDirsFirst => r is Done && final(self).content.dirs_first
                    == !old(self).content.dirs_first && resorted(
                    &old(self).content,
                    &final(self).content,
                ) && reselected(old(self), final(self)),
            },
    {
        match action {
            FileListAction::Search => FileListStep::Search,
            FileListAction::Filter => FileListStep::Filter,
            FileListAction::SearchNext => FileListStep::Done(self.search_next()),
            FileListAction::SearchPrev => FileListStep::Done(self.search_prev()),
            FileListAction::Select => FileListStep::Done(self.multi_select_file()),
            FileListAction::InvertSelection => FileListStep::Done(self.invert_selection()),
            FileListAction::ClearSelection => {
                self.clear_selections();
                FileListStep::Done(None)
            },
            FileListAction::FilterSelection => FileListStep::Done(self.toggle_filter_selected()),
            FileListAction::ToggleTag => match self.toggle_tag(tags) {
                Ok(()) => FileListStep::Done(None),
                Err(e) => FileListStep::TagFailed(e),
            },
            FileListAction::ToggleHidden => FileListStep::Done(Some(self.toggle_hidden())),
            FileListAction::ReverseSort => FileListStep::Done(Some(self.reverse_sort())),
            FileListAction::CycleSort => FileListStep::Done(Some(self.cycle_sort())),
            FileListAction::ToNextMtime => {
                self.select_next_mtime();
                FileListStep::Done(None)
            },
            FileListAction::ToPrevMtime => {
                self.select_prev_mtime();
                FileListStep::Done(None)
            },
            FileListAction::ToggleDirsFirst => FileListStep::Done(Some(self.toggle_dirs_first())),
        }
    }

    /// After the configuration was read: where hidden files are to be shown
    /// or not otherwise than they are, the setting is taken over, the shown
    /// files counted again, and a cursor past the end goes to the last line.
    pub fn config_loaded(&mut self, show_hidden: bool)
        ensures
            old(self).content.show_hidden == show_hidden ==> *final(self) == *old(self),
            old(self).content.show_hidden != show_hidden ==> {
                &&& final(self).content.show_hidden == show_hidden
                &&& final(self).content.files == old(self).content.files
                &&& final(self).content.len == final(self).content.shown_view().len()
                &&& final(self).selection == (if old(self).selection >= final(self).content.len
                    && final(self).content.len != 0 {
                    (final(self).content.len - 1) as usize
                } else {
                    old(self).selection
                })
                &&& final(self).offset == old(self).offset
            },
    {
        if self.content.show_hidden != show_hidden {
            self.content.show_hidden = show_hidden;
            self.content.recalculate_len();
            self.refresh();
        }
    }

    /// Puts the cursor on the first shown file at `path` (see `select_file`).
    fn select_path(&mut self, path: &Option<String>)
        requires
            old(self).content.files@.len() + 2 < usize::MAX,
        ensures
            match path {
                Some(p) => match old(self).index_of_path(p@) {
                    Some(i) => final(self).selection == i && final(self).offset == offset_for(
                        i,
                        old(self).ysize_spec(),
                    ),
                    None => final(self).selection == 0 && final(self).offset == offset_for(0, old(self).ysize_spec()),
                },
                None => final(self).selection == old(self).selection && final(self).offset == old(self).offset,
            },
            final(self).content == old(self).content,
            final(self).coordinates == old(self).coordinates,
            final(self).seeking == old(self).seeking,
            final(self).searching == old(self).searching,
    {
        match path {
            Some(p) => match self.find_index(p.as_str()) {
                Some(i) => self.set_selection(i),
                None => self.set_selection(0),
            },
            None => {},
        }
    }
}

/// The order after `s` in the cycle name, size, time of change.
pub open spec fn next_sort(s: SortBy) -> SortBy {
    match s {
        SortBy::Name => SortBy::Size,
        SortBy::Size => SortBy::MTime,
        SortBy::MTime => SortBy::Name,
    }
}

/// `b`'s cursor is on the file `a` had chosen (its first shown copy), on
/// the first line where it is not shown; unmoved where `a` had none.
pub open spec fn reselected(a: &ListView<Files>, b: &ListView<Files>) -> bool {
    match a.cursor_file() {
        Some(p) => match b.index_of_path(a.content.files@[p].path@) {
            Some(i) => b.selection == i && b.offset == offset_for(i, b.ysize_spec()),
            None => b.selection == 0 && b.offset == offset_for(0, b.ysize_spec()),
        },
        None => b.selection == a.selection && b.offset == a.offset,
    }
}

/// `b`'s files are `a`'s, in `b`'s order where that order is total.
pub open spec fn resorted(a: &Files, b: &Files) -> bool {
    &&& views(b.files@).to_multiset() == views(a.files@).to_multiset()
    &&& b.files@.len() == a.files@.len()
    &&& (total_on(views(a.files@), b.sort, b.dirs_first) ==> in_list_order(
        views(b.files@),
        b.sort,
        b.dirs_first,
        b.reverse,
    ))
}

/// `f` with its selection flipped.
pub open spec fn flipped(f: FileView) -> FileView {
    FileView { selected: !f.selected, ..f }
}

/// `f` not selected.
pub open spec fn unselected(f: FileView) -> FileView {
    FileView { selected: false, ..f }
}

/// `f` flipped (`flip`) or unselected.
pub open spec fn mark(f: FileView, flip: bool) -> FileView {
    if flip {
        flipped(f)
    } else {
        unselected(f)
    }
}

/// The files `fs` with those at the positions in `ps` flipped (`flip`) or
/// unselected.
pub open spec fn mark_at(fs: Seq<FileView>, ps: Seq<int>, flip: bool) -> Seq<FileView> {
    Seq::new(fs.len(), |k: int| if ps.contains(k) { mark(fs[k], flip) } else { fs[k] })
}

/// The index in the shown list `sv` of the first shown file whose
/// lowercase name holds `pattern`.
pub open spec fn first_shown_match(files: Seq<FileView>, sv: Seq<int>, pattern: Seq<char>) -> Option<int>
    decreases sv.len(),
{
    if sv.len() == 0 {
        None
    } else {
        match first_shown_match(files, sv.drop_last(), pattern) {
            Some(i) => Some(i),
            None => if contains_seq(lowercase(files[sv.last()].name), pattern) {
                Some(sv.len() - 1)
            } else {
                None
            },
        }
    }
}

proof fn lemma_first_shown_match_prefix(files: Seq<FileView>, sv: Seq<int>, n: int, pattern: Seq<char>)
    requires
        0 <= n <= sv.len(),
        first_shown_match(files, sv.take(n), pattern) is Some,
    ensures
        first_shown_match(files, sv, pattern) == first_shown_match(files, sv.take(n), pattern),
    decreases sv.len() - n,
{
    if n < sv.len() {
        assert(sv.take(n + 1).drop_last() =~= sv.take(n));
        lemma_first_shown_match_prefix(files, sv, n + 1, pattern);
    } else {
        assert(sv.take(n) =~= sv);
    }
}

/// What a file list action leaves for its owner to do.
#[derive(Clone, Debug, PartialEq, Eq)]
pub enum FileListStep {
    /// Done; the status line's text, if any.
    Done(Option<String>),
    /// A search prompt is to run (see `search_event`).
    Search,
    /// A filter prompt is to run (see `filter_event`).
    Filter,
    /// The tag could not be flipped.
    TagFailed(TagError),
}

proof fn lemma_shown_index_prefix(files: Seq<FileView>, sv: Seq<int>, n: int, path: Seq<char>)
    requires
        0 <= n <= sv.len(),
        shown_index(files, sv.take(n), path) is Some,
    ensures
        shown_index(files, sv, path) == shown_index(files, sv.take(n), path),
    decreases sv.len() - n,
{
    if n < sv.len() {
        assert(sv.take(n + 1).drop_last() =~= sv.take(n));
        lemma_shown_index_prefix(files, sv, n + 1, path);
    } else {
        assert(sv.take(n) =~= sv);
    }
}

} // verus!
