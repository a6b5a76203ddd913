//! Settings remembered per directory: how its files were sorted and
//! filtered, which of them were selected and which was chosen, put back
//! when the directory is shown again.
use vstd::prelude::*;
use crate::files::{
    File, FileView, Files, SortBy, opt_view, placeholder_view, selected_positions, shown_positions,
    views,
};
use crate::text::{chars_eq, str_to_chars};

verus! {

/// How a directory's files are ordered and which are shown.
#[derive(Debug)]
pub struct DirSettings {
    pub sort: SortBy,
    pub dirs_first: bool,
    pub reverse: bool,
    pub show_hidden: bool,
    pub filter: Option<String>,
    pub filter_selected: bool,
}

/// What is remembered of a directory: the chosen file, the selected files
/// and the directory's settings.
#[derive(Debug)]
pub struct TabSettings {
    pub selection: Option<File>,
    pub multi_selections: Vec<File>,
    pub dir_settings: DirSettings,
}

/// The settings a directory has before anything is remembered of it.
pub open spec fn default_dir_settings() -> DirSettings {
    DirSettings {
        sort: SortBy::Name,
        dirs_first: true,
        reverse: false,
        show_hidden: true,
        filter: None,
        filter_selected: false,
    }
}

impl DirSettings {
    /// By name, directories first, hidden files shown, no filter.
    pub fn new() -> (r: DirSettings)
        ensures
            r == default_dir_settings(),
    {
        DirSettings {
            sort: SortBy::Name,
            dirs_first: true,
            reverse: false,
            show_hidden: true,
            filter: None,
            filter_selected: false,
        }
    }
}

impl TabSettings {
    /// Nothing chosen or selected, the default settings.
    pub fn new() -> (r: TabSettings)
        ensures
            r.selection is None,
            r.multi_selections@.len() == 0,
            r.dir_settings == default_dir_settings(),
    {
        TabSettings { selection: None, multi_selections: Vec::new(), dir_settings: DirSettings::new() }
    }
}

/// The settings of `files` itself.
pub open spec fn settings_of(files: &Files) -> DirSettings {
    DirSettings {
        sort: files.sort,
        dirs_first: files.dirs_first,
        reverse: files.reverse,
        show_hidden: files.show_hidden,
        filter: files.filter,
        filter_selected: files.filter_selected,
    }
}

/// The remembered settings of the directory at `key` (the first entry for
/// it).
pub open spec fn lookup(es: Seq<(String, TabSettings)>, key: Seq<char>) -> Option<TabSettings>
    decreases es.len(),
{
    if es.len() == 0 {
        None
    } else if es[0].0@ == key {
        Some(es[0].1)
    } else {
        lookup(es.drop_first(), key)
    }
}

/// The file `f`, selected where its path is among `paths`.
pub open spec fn marked(f: FileView, paths: Seq<Seq<char>>) -> FileView {
    if paths.contains(f.path) {
        FileView { selected: true, ..f }
    } else {
        f
    }
}

/// The paths of a list of files.
pub open spec fn paths_of(fs: Seq<File>) -> Seq<Seq<char>> {
    fs.map_values(|f: File| f.path@)
}

/// The settings remembered for each directory, by its path.
#[derive(Debug)]
pub struct SettingsCache {
    pub entries: Vec<(String, TabSettings)>,
}

proof fn lemma_lookup_at(es: Seq<(String, TabSettings)>, i: int, key: Seq<char>)
    requires
        0 <= i < es.len(),
        es[i].0@ == key,
        forall|j: int| 0 <= j < i ==> es[j].0@ != key,
    ensures
        lookup(es, key) == Some(es[i].1),
    decreases i,
{
    if i > 0 {
        lemma_lookup_at(es.drop_first(), i - 1, key);
    }
}

proof fn lemma_lookup_none(es: Seq<(String, TabSettings)>, key: Seq<char>)
    requires
        forall|j: int| 0 <= j < es.len() ==> es[j].0@ != key,
    ensures
        lookup(es, key) is None,
    decreases es.len(),
{
    if es.len() > 0 {
        lemma_lookup_none(es.drop_first(), key);
    }
}

proof fn lemma_lookup_update(es: Seq<(String, TabSettings)>, i: int, v: TabSettings, key: Seq<char>)
    requires
        0 <= i < es.len(),
        forall|j: int| 0 <= j < i ==> es[j].0@ != es[i].0@,
    ensures
        lookup(es.update(i, (es[i].0, v)), key) == if key == es[i].0@ {
            Some(v)
        } else {
            lookup(es, key)
        },
    decreases i,
{
    let u = es.update(i, (es[i].0, v));
    if i > 0 {
        assert(u.drop_first() =~= es.drop_first().update(i - 1, (es[i].0, v)));
        lemma_lookup_update(es.drop_first(), i - 1, v, key);
    } else {
        assert(u.drop_first() =~= es.drop_first());
    }
}

proof fn lemma_lookup_push(es: Seq<(String, TabSettings)>, k: String, v: TabSettings, key: Seq<char>)
    requires
        forall|j: int| 0 <= j < es.len() ==> es[j].0@ != k@,
    ensures
        lookup(es.push((k, v)), key) == if key == k@ {
            Some(v)
        } else {
            lookup(es, key)
        },
    decreases es.len(),
{
    let p = es.push((k, v));
    if es.len() > 0 {
        assert(p[0] == es[0]);
        assert(p.drop_first() =~= es.drop_first().push((k, v)));
        assert forall|j: int| 0 <= j < es.drop_first().len() implies es.drop_first()[j].0@ != k@ by {
            assert(es.drop_first()[j] == es[j + 1]);
        }
        lemma_lookup_push(es.drop_first(), k, v, key);
        assert(es[0].0@ != k@);
        if es[0].0@ == key {
            assert(lookup(p, key) == Some(es[0].1));
            assert(lookup(es, key) == Some(es[0].1));
        } else {
            assert(lookup(p, key) == lookup(p.drop_first(), key));
            assert(lookup(es, key) == lookup(es.drop_first(), key));
        }
    } else {
        assert(p[0] == (k, v));
        assert(p.drop_first() =~= Seq::<(String, TabSettings)>::empty());
    }
}

fn clone_opt_string(s: &Option<String>) -> (r: Option<String>)
    ensures
        r == *s,
{
    match s {
        Some(x) => Some(x.clone()),
        None => None,
    }
}

impl SettingsCache {
    /// Nothing remembered.
    pub fn new() -> (r: SettingsCache)
        ensures
            r.entries@.len() == 0,
    {
        SettingsCache { entries: Vec::new() }
    }

    /// Where the settings of the directory at `path` stand.
    fn find(&self, path: &str) -> (r: Option<usize>)
        ensures
            match r {
                Some(i) => i < self.entries@.len() && self.entries@[i as int].0@ == path@ && forall|
                    j: int,
                | 0 <= j < i ==> self.entries@[j].0@ != path@,
                None => forall|j: int| 0 <= j < self.entries@.len() ==> self.entries@[j].0@ != path@,
            },
    {
        let want = str_to_chars(path);
        let mut i: usize = 0;
        while i < self.entries.len()
            invariant
                i <= self.entries@.len(),
                want@ == path@,
                forall|j: int| 0 <= j < i ==> self.entries@[j].0@ != path@,
            decreases self.entries.len() - i,
        {
            if chars_eq(&str_to_chars(self.entries[i].0.as_str()), &want) {
                return Some(i);
            }
            i += 1;
        }
        None
    }

    /// The remembered settings of `dir`.
    pub fn get(&self, dir: &File) -> (r: Option<&TabSettings>)
        ensures
            match lookup(self.entries@, dir.path@) {
                Some(ts) => r == Some(&ts),
                None => r is None,
            },
    {
        match self.find(dir.path.as_str()) {
            Some(i) => {
                proof {
                    lemma_lookup_at(self.entries@, i as int, dir.path@);
                }
                Some(&self.entries[i].1)
            },
            None => {
                proof {
                    lemma_lookup_none(self.entries@, dir.path@);
                }
                None
            },
        }
    }

    /// The file chosen in `dir` when it was last shown.
    pub fn get_selection(&self, dir: &File) -> (r: Option<File>)
        ensures
            match lookup(self.entries@, dir.path@) {
                Some(ts) => r == ts.selection,
                None => r is None,
            },
    {
        match self.get(dir) {
            Some(ts) => match &ts.selection {
                Some(f) => Some(f.clone_file()),
                None => None,
            },
            None => None,
        }
    }

    /// Remembers `v` for the directory at `path`, in place of what was.
    fn store(&mut self, path: &str, v: TabSettings)
        ensures
            lookup(final(self).entries@, path@) == Some(v),
            forall|k: Seq<char>| k != path@ ==> lookup(final(self).entries@, k) == lookup(
                old(self).entries@,
                k,
            ),
    {
        match self.find(path) {
            Some(i) => {
                let ghost es = self.entries@;
                let key = self.entries[i].0.clone();
                let ghost v2 = v;
                self.entries.set(i, (key, v));
                assert(self.entries@ =~= es.update(i as int, (es[i as int].0, v2)));
                assert forall|k: Seq<char>| #[trigger] lookup(self.entries@, k) == if k == path@ {
                    Some(v2)
                } else {
                    lookup(es, k)
                } by {
                    lemma_lookup_update(es, i as int, v2, k);
                }
            },
            None => {
                let ghost es = self.entries@;
                let k = String::from_str(path);
                let ghost v2 = v;
                let ghost k2 = k;
                self.entries.push((k, v));
                assert(self.entries@ =~= es.push((k2, v2)));
                assert forall|kk: Seq<char>| #[trigger] lookup(self.entries@, kk) == if kk == path@ {
                    Some(v2)
                } else {
                    lookup(es, kk)
                } by {
                    lemma_lookup_push(es, k2, v2, kk);
                }
            },
        }
    }

    /// Remembers `selection` as the file chosen in `dir`.
    pub fn set_selection(&mut self, dir: &File, selection: File)
        ensures
            lookup(final(self).entries@, dir.path@) matches Some(ts) && ts.selection == Some(
                selection,
            ) && match lookup(old(self).entries@, dir.path@) {
                Some(old_ts) => ts.multi_selections == old_ts.multi_selections && ts.dir_settings
                    == old_ts.dir_settings,
                None => ts.multi_selections@.len() == 0 && ts.dir_settings == default_dir_settings(),
            },
            forall|k: Seq<char>| k != dir.path@ ==> lookup(final(self).entries@, k) == lookup(
                old(self).entries@,
                k,
            ),
    {
        match self.find(dir.path.as_str()) {
            Some(i) => {
                proof {
                    lemma_lookup_at(self.entries@, i as int, dir.path@);
                }
                let ghost es = self.entries@;
                let (key, mut ts) = self.entries.remove(i);
                ts.selection = Some(selection);
                let ghost v = ts;
                self.entries.insert(i, (key, ts));
                assert(self.entries@ =~= es.update(i as int, (es[i as int].0, v)));
                assert forall|k: Seq<char>| #[trigger] lookup(self.entries@, k) == if k == dir.path@ {
                    Some(v)
                } else {
                    lookup(es, k)
                } by {
                    lemma_lookup_update(es, i as int, v, k);
                }
            },
            None => {
                proof {
                    lemma_lookup_none(self.entries@, dir.path@);
                }
                let mut ts = TabSettings::new();
                ts.selection = Some(selection);
                self.store(dir.path.as_str(), ts);
            },
        }
    }

    /// Remembers how `files` are shown and which are selected (see
    /// `extract_tab_settings`), and `selection` as the file chosen.
    pub fn save_settings(&mut self, files: &Files, selection: Option<File>)
        ensures
            lookup(final(self).entries@, files.directory.path@) matches Some(ts) && is_extracted(
                ts,
                files,
                selection,
            ),
            forall|k: Seq<char>| k != files.directory.path@ ==> lookup(final(self).entries@, k)
                == lookup(old(self).entries@, k),
    {
        let ts = extract_tab_settings(files, selection);
        self.store(files.directory.path.as_str(), ts);
    }

    /// Puts the remembered settings of the files' directory back on them,
    /// if any: counting the shown files again first (with the settings they
    /// had) where the hidden, filter or selection-filter settings differ,
    /// then taking over all settings, and selecting the files remembered as
    /// selected. Nothing changes where nothing is remembered.
    pub fn apply_settings(&self, files: &mut Files)
        ensures
            applied(self.entries@, old(files), final(files)),
    {
        let ts = match self.get(&files.directory) {
            Some(ts) => ts,
            None => return,
        };
        let ds = &ts.dir_settings;
        let same_filter = match (&files.filter, &ds.filter) {
            (Some(a), Some(b)) => chars_eq(&str_to_chars(a.as_str()), &str_to_chars(b.as_str())),
            (None, None) => true,
            _ => false,
        };
        if files.show_hidden != ds.show_hidden || !same_filter || files.filter_selected
            != ds.filter_selected {
            files.recalculate_len();
        }
        files.sort = ds.sort;
        files.dirs_first = ds.dirs_first;
        files.reverse = ds.reverse;
        files.show_hidden = ds.show_hidden;
        files.filter = clone_opt_string(&ds.filter);
        files.filter_selected = ds.filter_selected;
        mark_selected(files, &ts.multi_selections);
    }

    /// The cached files of a directory as they are shown again: its order,
    /// hidden and filter settings remembered (not the selection filter),
    /// the files remembered as selected selected, and a placeholder where
    /// none is counted.
    pub fn cached_files(&self, files: Files) -> (r: Files)
        ensures
            match lookup(self.entries@, files.directory.path@) {
                None => r.sort == SortBy::Name && r.dirs_first && !r.reverse && r.show_hidden
                    && r.filter is None && r.filter_selected == files.filter_selected && views(
                    r.files@,
                ) == if files.len == 0 {
                    views(files.files@).push(placeholder_view(files.directory.path@))
                } else {
                    views(files.files@)
                },
                Some(ts) => {
                    let ds = ts.dir_settings;
                    &&& r.sort == ds.sort
                    &&& r.dirs_first == ds.dirs_first
                    &&& r.reverse == ds.reverse
                    &&& r.show_hidden == ds.show_hidden
                    &&& r.filter == ds.filter
                    &&& r.filter_selected == files.filter_selected
                    &&& views(r.files@) == if files.len == 0 {
                        Seq::new(
                            files.files@.len(),
                            |k: int| marked(files.files@[k]@, paths_of(ts.multi_selections@)),
                        ).push(placeholder_view(files.directory.path@))
                    } else {
                        Seq::new(
                            files.files@.len(),
                            |k: int| marked(files.files@[k]@, paths_of(ts.multi_selections@)),
                        )
                    }
                },
            },
            r.len == if files.len == 0 {
                1
            } else {
                files.len
            },
            r.directory == files.directory,
    {
        let mut files = files;
        let ghost f0 = files;
        match self.get(&files.directory) {
            Some(ts) => {
                let ds = &ts.dir_settings;
                files.sort = ds.sort;
                files.dirs_first = ds.dirs_first;
                files.reverse = ds.reverse;
                files.show_hidden = ds.show_hidden;
                files.filter = clone_opt_string(&ds.filter);
                mark_selected(&mut files, &ts.multi_selections);
                assert(views(files.files@) =~= Seq::new(
                    f0.files@.len(),
                    |k: int| marked(f0.files@[k]@, paths_of(ts.multi_selections@)),
                ));
            },
            None => {
                let d = DirSettings::new();
                files.sort = d.sort;
                files.dirs_first = d.dirs_first;
                files.reverse = d.reverse;
                files.show_hidden = d.show_hidden;
                files.filter = None;
            },
        }
        ensure_not_empty(files)
    }
}

/// What putting the remembered settings `es` back on the files `a` leaves
/// in `b` (see `SettingsCache::apply_settings`).
pub open spec fn applied(es: Seq<(String, TabSettings)>, a: &Files, b: &Files) -> bool {
    match lookup(es, a.directory.path@) {
        None => *b == *a,
        Some(ts) => {
            let ds = ts.dir_settings;
            let recount = a.show_hidden != ds.show_hidden || opt_view(a.filter) != opt_view(ds.filter)
                || a.filter_selected != ds.filter_selected;
            &&& b.len == (if recount {
                a.shown_view().len() as usize
            } else {
                a.len
            })
            &&& settings_of(b) == ds
            &&& b.files@.len() == a.files@.len()
            &&& forall|k: int|
                0 <= k < a.files@.len() ==> (#[trigger] b.files@[k])@ == marked(
                    a.files@[k]@,
                    paths_of(ts.multi_selections@),
                )
            &&& b.directory == a.directory
            &&& b.meta_upto == a.meta_upto
        },
    }
}

/// Whether `ts` holds what `extract_tab_settings` takes from `files` and
/// `selection`: the chosen file, the shown files that are selected (in
/// order), and the files' settings.
pub open spec fn is_extracted(ts: TabSettings, files: &Files, selection: Option<File>) -> bool {
    &&& ts.selection == selection
    &&& ts.multi_selections@.len() == selected_positions(views(files.files@), files.shown_view()).len()
    &&& forall|k: int|
        0 <= k < ts.multi_selections@.len() ==> (#[trigger] ts.multi_selections@[k]) == files.files@[selected_positions(
            views(files.files@),
            files.shown_view(),
        )[k]]
    &&& ts.dir_settings == settings_of(files)
}

/// What is remembered of `files`: `selection` as the chosen file, the shown
/// files that are selected, and how the files are shown.
pub fn extract_tab_settings(files: &Files, selection: Option<File>) -> (r: TabSettings)
    ensures
        is_extracted(r, files, selection),
{
    let ps = files.get_selected();
    let ghost sp = selected_positions(views(files.files@), files.shown_view());
    proof {
        crate::files::lemma_shown_positions_bound(
            views(files.files@),
            files.filter_view(),
            files.filter_selected,
            files.show_hidden,
        );
    }
    assert(ps@.len() == sp.len()) by {
        assert(ps@.map_values(|p: usize| p as int).len() == ps@.len());
    }
    let mut multi: Vec<File> = Vec::new();
    let mut i: usize = 0;
    while i < ps.len()
        invariant
            i <= ps@.len(),
            ps@.len() == sp.len(),
            ps@.map_values(|p: usize| p as int) == sp,
            forall|k: int| 0 <= k < ps@.len() ==> (#[trigger] ps@[k] as int) < files.files@.len(),
            multi@.len() == i,
            forall|k: int| 0 <= k < i ==> (#[trigger] multi@[k]) == files.files@[sp[k]],
        decreases ps.len() - i,
    {
        let p = ps[i];
        assert(sp[i as int] == p as int);
        multi.push(files.files[p].clone_file());
        i += 1;
    }
    TabSettings {
        selection,
        multi_selections: multi,
        dir_settings: DirSettings {
            sort: files.sort,
            dirs_first: files.dirs_first,
            reverse: files.reverse,
            show_hidden: files.show_hidden,
            filter: clone_opt_string(&files.filter),
            filter_selected: files.filter_selected,
        },
    }
}

/// Whether one of `sels` is at `path`.
fn has_path(sels: &Vec<File>, path: &str) -> (r: bool)
    ensures
        r == paths_of(sels@).contains(path@),
{
    let want = str_to_chars(path);
    let mut i: usize = 0;
    while i < sels.len()
        invariant
            i <= sels@.len(),
            want@ == path@,
            forall|k: int| 0 <= k < i ==> sels@[k].path@ != path@,
        decreases sels.len() - i,
    {
        if chars_eq(&str_to_chars(sels[i].path.as_str()), &want) {
            assert(paths_of(sels@)[i as int] == path@);
            return true;
        }
        i += 1;
    }
    assert forall|k: int| 0 <= k < paths_of(sels@).len() implies paths_of(sels@)[k] != path@ by {
        assert(paths_of(sels@)[k] == sels@[k].path@);
    }
    false
}

/// Selects each of the files whose path is among those of `sels`.
fn mark_selected(files: &mut Files, sels: &Vec<File>)
    ensures
        final(files).files@.len() == old(files).files@.len(),
        forall|k: int|
            0 <= k < old(files).files@.len() ==> (#[trigger] final(files).files@[k])@ == marked(
                old(files).files@[k]@,
                paths_of(sels@),
            ),
        *final(files) == (Files { files: final(files).files, ..*old(files) }),
{
    let mut i: usize = 0;
    while i < files.files.len()
        invariant
            i <= files.files@.len(),
            files.files@.len() == old(files).files@.len(),
            forall|k: int|
                0 <= k < i ==> (#[trigger] files.files@[k])@ == marked(
                    old(files).files@[k]@,
                    paths_of(sels@),
                ),
            forall|k: int| i <= k < files.files@.len() ==> files.files@[k] == old(files).files@[k],
            *files == (Files { files: files.files, ..*old(files) }),
        decreases files.files.len() - i,
    {
        if has_path(sels, files.files[i].path.as_str()) {
            files.files[i].selected = true;
        }
        i += 1;
    }
}

/// `files` with the placeholder added (and counted alone) where none is
/// counted.
pub fn ensure_not_empty(files: Files) -> (r: Files)
    ensures
        files.len == 0 ==> views(r.files@) == views(files.files@).push(
            placeholder_view(files.directory.path@),
        ) && r.len == 1,
        files.len != 0 ==> r.files == files.files && r.len == files.len,
        r == (Files { files: r.files, len: r.len, ..files }),
{
    let mut files = files;
    if files.len == 0 {
        let ghost before = views(files.files@);
        let placeholder = File::new_placeholder(files.directory.path.as_str());
        files.files.push(placeholder);
        assert(views(files.files@) =~= before.push(placeholder_view(files.directory.path@)));
        files.len = 1;
    }
    files
}

/// The watched directories that no open directory is: those to stop
/// watching.
pub fn removable_watches(watched: &Vec<File>, open: &Vec<File>) -> (r: Vec<File>)
    ensures
        forall|k: int| 0 <= k < r@.len() ==> watched@.contains(#[trigger] r@[k]) && !paths_of(
            open@,
        ).contains(r@[k].path@),
        forall|k: int|
            0 <= k < watched@.len() && !paths_of(open@).contains(#[trigger] watched@[k].path@)
                ==> r@.contains(watched@[k]),
{
    let mut r: Vec<File> = Vec::new();
    let mut i: usize = 0;
    while i < watched.len()
        invariant
            i <= watched@.len(),
            forall|k: int| 0 <= k < r@.len() ==> watched@.contains(#[trigger] r@[k]) && !paths_of(
                open@,
            ).contains(r@[k].path@),
            forall|k: int|
                0 <= k < i && !paths_of(open@).contains(#[trigger] watched@[k].path@) ==> r@.contains(
                    watched@[k],
                ),
        decreases watched.len() - i,
    {
        let w = &watched[i];
        if !has_path(open, w.path.as_str()) {
            let ghost prev = r@;
            r.push(w.clone_file());
            assert(r@.last() == watched@[i as int]);
            assert forall|k: int|
                0 <= k < i + 1 && !paths_of(open@).contains(#[trigger] watched@[k].path@) implies r@.contains(
                watched@[k],
            ) by {
                if k < i {
                    assert(prev.contains(watched@[k]));
                    let j = choose|j: int| 0 <= j < prev.len() && prev[j] == watched@[k];
                    assert(r@[j] == watched@[k]);
                } else {
                    assert(r@[r@.len() - 1] == watched@[k]);
                }
            }
        }
        i += 1;
    }
    r
}

/// Settings put back are the settings saved: where the settings of `saved`
/// were remembered (see `save_settings`) and are then put back on files of
/// the same directory (see `apply_settings`), those files end up shown as
/// `saved` was (order, hidden files, filters), and each of them at the path
/// of a file selected and shown in `saved` is selected.
pub proof fn lemma_settings_restored(
    es: Seq<(String, TabSettings)>,
    saved: &Files,
    selection: Option<File>,
    before: &Files,
    after: &Files,
    k: int,
)
    requires
        lookup(es, saved.directory.path@) matches Some(ts) && is_extracted(ts, saved, selection),
        before.directory.path@ == saved.directory.path@,
        applied(es, before, after),
        0 <= k < before.files@.len(),
        exists|j: int|
            0 <= j < selected_positions(views(saved.files@), saved.shown_view()).len()
                && saved.files@[selected_positions(views(saved.files@), saved.shown_view())[j]].path@
                == before.files@[k].path@,
    ensures
        settings_of(after) == settings_of(saved),
        after.files@[k].selected,
{
    let ts = lookup(es, saved.directory.path@)->0;
    let sp = selected_positions(views(saved.files@), saved.shown_view());
    let j = choose|j: int|
        0 <= j < sp.len() && saved.files@[sp[j]].path@ == before.files@[k].path@;
    assert(ts.multi_selections@[j] == saved.files@[sp[j]]);
    assert(paths_of(ts.multi_selections@)[j] == before.files@[k].path@);
    assert(paths_of(ts.multi_selections@).contains(before.files@[k].path@));
    assert(after.files@[k]@ == marked(before.files@[k]@, paths_of(ts.multi_selections@)));
}

} // verus!
