//! The mounted file systems: which one holds a path, its device and its
//! total and free space as the status line shows them.
use vstd::prelude::*;
use std::path::{Component, Path};
use systemstat::ByteSize;
use crate::text::{chars_eq, str_to_chars};

verus! {

/// A mounted file system, as plain values.
#[derive(Clone, Debug)]
pub struct Filesystem {
    pub fs_mounted_from: String,
    pub fs_mounted_on: String,
    pub total: u64,
    pub avail: u64,
}

/// The last component of a path: `None` where the path has no component,
/// else its text (`/` for the root) and whether it is a name (not the root,
/// `.` or `..`).
pub uninterp spec fn last_component(path: Seq<char>) -> Option<(Seq<char>, bool)>;

/// Whether `path` starts with `base`, component by component, as
/// `Path::starts_with` decides.
pub uninterp spec fn path_starts_with(path: Seq<char>, base: Seq<char>) -> bool;

/// The number of components of a path, as `Path::components` counts them.
pub uninterp spec fn component_count(path: Seq<char>) -> nat;

/// `Path::components().last()`: its text and whether it is a name; the
/// result is named `last_component`.
#[verifier::external_body]
pub(crate) fn last_component_of(path: &str) -> (r: Option<(String, bool)>)
    ensures
        match r {
            None => last_component(path@) is None,
            Some((t, normal)) => last_component(path@) == Some((t@, normal)),
        },
{
    Path::new(path).components().last().map(|c| {
        let normal = match c {
            Component::Normal(_) => true,
            _ => false,
        };
        (c.as_os_str().to_string_lossy().to_string(), normal)
    })
}

/// bytesize's `to_string_as(false)`: a number of bytes in decimal units.
/// Nothing is stated of the text: bytesize picks the unit by a floating-point
/// logarithm, whose precision the platform decides.
#[verifier::external_body]
fn size_text(bytes: u64) -> (r: String) {
    ByteSize::b(bytes).to_string_as(false)
}

/// `Path::starts_with`; its result is named `path_starts_with`.
#[verifier::external_body]
fn starts_with(path: &str, base: &str) -> (r: bool)
    ensures
        r == path_starts_with(path@, base@),
{
    Path::new(path).starts_with(base)
}

/// `Path::components().count()`; its result is named `component_count`.
#[verifier::external_body]
fn count_components(path: &str) -> (r: usize)
    ensures
        r == component_count(path@),
{
    Path::new(path).components().count()
}

/// What the status line tells of a file system.
pub trait FsExt {
    /// The device the file system is mounted from, followed by `: `.
    fn get_dev(&self) -> Option<String>;

    /// The total size, as bytesize writes it.
    fn get_total(&self) -> String;

    /// The free size, as bytesize writes it.
    fn get_free(&self) -> String;
}

impl FsExt for Filesystem {
    /// The name of the device (the last component of where the file system
    /// is mounted from) and `: `, nothing where that component is no name,
    /// and `None` where there is none.
    fn get_dev(&self) -> (r: Option<String>)
        ensures
            match last_component(self.fs_mounted_from@) {
                None => r is None,
                Some((_, false)) => r matches Some(s) && s@ == Seq::<char>::empty(),
                Some((n, true)) => r matches Some(s) && s@ == n + ": "@,
            },
    {
        match last_component_of(self.fs_mounted_from.as_str()) {
            None => None,
            Some((dev, true)) => {
                let mut d = dev;
                d.append(": ");
                Some(d)
            },
            Some((_, false)) => Some(String::new()),
        }
    }

    fn get_total(&self) -> (r: String) {
        size_text(self.total)
    }

    fn get_free(&self) -> (r: String) {
        size_text(self.avail)
    }
}

/// The mounted file systems, by where they are mounted.
#[derive(Clone, Debug)]
pub struct FsStat {
    pub stats: Vec<(String, Filesystem)>,
}

/// The file systems of a table.
pub open spec fn table_values(s: Seq<(String, Filesystem)>) -> Seq<Filesystem> {
    s.map_values(|e: (String, Filesystem)| e.1)
}

/// Where file systems are mounted.
pub open spec fn on_points(s: Seq<Filesystem>) -> Seq<Seq<char>> {
    s.map_values(|f: Filesystem| f.fs_mounted_on@)
}

/// The table the file systems `ms` give, one after the other: a file system
/// mounted where an earlier one is takes its place, another is added.
pub open spec fn mount_table(ms: Seq<Filesystem>) -> Seq<Filesystem>
    decreases ms.len(),
{
    if ms.len() == 0 {
        Seq::empty()
    } else {
        let t = mount_table(ms.drop_last());
        match key_position(on_points(t), ms.last().fs_mounted_on@) {
            Some(i) => t.update(i, ms.last()),
            None => t.push(ms.last()),
        }
    }
}

/// The mount points of a table of file systems.
pub open spec fn mount_points(s: Seq<(String, Filesystem)>) -> Seq<Seq<char>> {
    s.map_values(|e: (String, Filesystem)| e.0@)
}

/// The position of the deepest mount point that holds `path` among `ms`
/// (the first of the deepest), with its depth; `None` where none holds it.
pub open spec fn deepest(ms: Seq<Seq<char>>, path: Seq<char>) -> Option<(int, nat)>
    decreases ms.len(),
{
    if ms.len() == 0 {
        None
    } else {
        let d = deepest(ms.drop_last(), path);
        if path_starts_with(path, ms.last()) {
            match d {
                Some((i, c)) => if component_count(ms.last()) > c {
                    Some((ms.len() - 1, component_count(ms.last())))
                } else {
                    Some((i, c))
                },
                None => if component_count(ms.last()) > 0 {
                    Some((ms.len() - 1, component_count(ms.last())))
                } else {
                    None
                },
            }
        } else {
            d
        }
    }
}

/// The mount point the search ends on: the deepest one holding the path,
/// or the empty path where none is deeper than it.
pub open spec fn chosen_mount(ms: Seq<Seq<char>>, path: Seq<char>) -> Seq<char> {
    match deepest(ms, path) {
        Some((i, _)) => ms[i],
        None => Seq::empty(),
    }
}

/// The first position of `key` among `ms`.
pub open spec fn key_position(ms: Seq<Seq<char>>, key: Seq<char>) -> Option<int>
    decreases ms.len(),
{
    if ms.len() == 0 {
        None
    } else if ms[0] == key {
        Some(0)
    } else {
        match key_position(ms.drop_first(), key) {
            Some(i) => Some(i + 1),
            None => None,
        }
    }
}

proof fn lemma_key_position(ms: Seq<Seq<char>>, key: Seq<char>)
    ensures
        key_position(ms, key) matches Some(i) ==> 0 <= i < ms.len() && ms[i] == key,
    decreases ms.len(),
{
    if ms.len() > 0 && ms[0] != key {
        lemma_key_position(ms.drop_first(), key);
    }
}

proof fn lemma_deepest_bound(ms: Seq<Seq<char>>, path: Seq<char>)
    ensures
        deepest(ms, path) matches Some((i, c)) ==> 0 <= i < ms.len() && c == component_count(ms[i]),
    decreases ms.len(),
{
    if ms.len() > 0 {
        lemma_deepest_bound(ms.drop_last(), path);
    }
}

impl FsStat {
    /// The table of the file systems `mounts`, by mount point.
    pub fn new(mounts: Vec<Filesystem>) -> (r: FsStat)
        ensures
            table_values(r.stats@) == mount_table(mounts@),
            mount_points(r.stats@) == on_points(mount_table(mounts@)),
    {
        let mut stats = FsStat { stats: Vec::new() };
        stats.refresh(mounts);
        stats
    }

    /// Replaces the table by the file systems `mounts`, each under where it
    /// is mounted; a later file system mounted at the same place takes the
    /// place of an earlier one.
    pub fn refresh(&mut self, mounts: Vec<Filesystem>)
        ensures
            table_values(final(self).stats@) == mount_table(mounts@),
            mount_points(final(self).stats@) == on_points(mount_table(mounts@)),
    {
        let mut table: Vec<(String, Filesystem)> = Vec::new();
        let ghost all = mounts@;
        assert(all.take(0) =~= Seq::<Filesystem>::empty());
        for mount in it: mounts.into_iter()
            invariant
                it.seq() == all,
                table_values(table@) == mount_table(all.take(it.index() as int)),
                mount_points(table@) == on_points(mount_table(all.take(it.index() as int))),
        {
            assert(all.take(it.index() + 1).drop_last() =~= all.take(it.index() as int));
            assert(all.take(it.index() + 1).last() == mount);
            let key = mount.fs_mounted_on.clone();
            let ghost t = mount_table(all.take(it.index() as int));
            let mut found: Option<usize> = None;
            let mut i: usize = 0;
            while i < table.len()
                invariant
                    i <= table@.len(),
                    mount_points(table@) == on_points(t),
                    table@.len() == t.len(),
                    match found {
                        Some(f) => f < i && key_position(on_points(t), key@) == Some(f as int),
                        None => forall|q: int| 0 <= q < i ==> on_points(t)[q] != key@,
                    },
                decreases table.len() - i,
            {
                if found.is_none() && table[i].0 == key {
                    assert(on_points(t)[i as int] == key@);
                    proof {
                        lemma_key_position_first(on_points(t), key@, i as int);
                    }
                    found = Some(i);
                }
                i += 1;
            }
            let ghost vals = table_values(table@);
            let ghost pts = mount_points(table@);
            match found {
                Some(f) => {
                    let k2 = key.clone();
                    table.remove(f);
                    table.insert(f, (k2, mount));
                    assert(table_values(table@) =~= vals.update(f as int, mount));
                    assert(mount_points(table@) =~= pts.update(f as int, key@));
                    assert(on_points(t.update(f as int, mount)) =~= on_points(t).update(f as int, key@));
                },
                None => {
                    proof {
                        lemma_key_position_none(on_points(t), key@);
                    }
                    table.push((key, mount));
                    assert(table_values(table@) =~= vals.push(mount));
                    assert(mount_points(table@) =~= pts.push(key@));
                    assert(on_points(t.push(mount)) =~= on_points(t).push(key@));
                },
            }
        }
        assert(all.take(all.len() as int) =~= all);
        self.stats = table;
    }

    /// The file system that holds `path`: the one mounted at the deepest
    /// mount point that `path` starts with.
    pub fn find_fs(&self, path: &str) -> (r: Option<&Filesystem>)
        ensures
            match key_position(mount_points(self.stats@), chosen_mount(mount_points(self.stats@), path@)) {
                Some(i) => r == Some(&self.stats@[i].1),
                None => r is None,
            },
    {
        let ghost ms = mount_points(self.stats@);
        let mut best: Option<(usize, usize)> = None;
        let mut i: usize = 0;
        assert(ms.take(0) =~= Seq::<Seq<char>>::empty());
        while i < self.stats.len()
            invariant
                i <= self.stats@.len(),
                ms == mount_points(self.stats@),
                match deepest(ms.take(i as int), path@) {
                    Some((j, c)) => best matches Some((bj, bc)) && bj == j && bc == c,
                    None => best is None,
                },
            decreases self.stats.len() - i,
        {
            let mp = self.stats[i].0.as_str();
            assert(ms.take(i + 1).drop_last() =~= ms.take(i as int));
            assert(ms.take(i + 1).last() == mp@);
            proof {
                lemma_deepest_bound(ms.take(i as int), path@);
            }
            if starts_with(path, mp) {
                let c = count_components(mp);
                match best {
                    Some((j, bc)) => {
                        if c > bc {
                            best = Some((i, c));
                        }
                    },
                    None => {
                        if c > 0 {
                            best = Some((i, c));
                        }
                    },
                }
            }
            i += 1;
        }
        assert(ms.take(i as int) =~= ms);
        proof {
            lemma_deepest_bound(ms, path@);
        }
        let empty = String::new();
        let key: &str = match best {
            Some((j, _)) => self.stats[j].0.as_str(),
            None => empty.as_str(),
        };
        let mut k: usize = 0;
        proof {
            lemma_key_position(ms, key@);
        }
        while k < self.stats.len()
            invariant
                k <= self.stats@.len(),
                ms == mount_points(self.stats@),
                key@ == chosen_mount(ms, path@),
                forall|q: int| 0 <= q < k ==> ms[q] != key@,
            decreases self.stats.len() - k,
        {
            let kc = str_to_chars(self.stats[k].0.as_str());
            let keyc = str_to_chars(key);
            if chars_eq(&kc, &keyc) {
                proof {
                    lemma_key_position_first(ms, key@, k as int);
                }
                return Some(&self.stats[k].1);
            }
            k += 1;
        }
        proof {
            lemma_key_position_none(ms, key@);
        }
        None
    }
}

proof fn lemma_key_position_first(ms: Seq<Seq<char>>, key: Seq<char>, k: int)
    requires
        0 <= k < ms.len(),
        ms[k] == key,
        forall|q: int| 0 <= q < k ==> ms[q] != key,
    ensures
        key_position(ms, key) == Some(k),
    decreases k,
{
    if k > 0 {
        lemma_key_position_first(ms.drop_first(), key, k - 1);
    }
}

proof fn lemma_key_position_none(ms: Seq<Seq<char>>, key: Seq<char>)
    requires
        forall|q: int| 0 <= q < ms.len() ==> ms[q] != key,
    ensures
        key_position(ms, key) is None,
    decreases ms.len(),
{
    if ms.len() > 0 {
        lemma_key_position_none(ms.drop_first(), key);
    }
}

} // verus!
