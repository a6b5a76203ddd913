//! Tagged files: the list of tagged paths, read from and written to the
//! tag file one path per line, and a file's tag flipped against it.
use vstd::prelude::*;
use crate::files::{paths_equal, same_path, File};
use crate::text::{
    chars_of, chars_to_string, joined_lines, lemma_lines_of_joined, lines, lines_chars,
    plain_line, str_to_chars,
};

verus! {

/// The tagged paths, and whether they were read from the tag file yet.
#[derive(Debug)]
pub struct Tags {
    pub loaded: bool,
    pub paths: Vec<String>,
}

/// Why a tag could not be looked up.
#[derive(Clone, Copy, Debug, PartialEq, Eq, Structural)]
pub enum TagError {
    /// The tag file was not read yet.
    NotLoaded,
}

/// The paths of a list of strings.
pub open spec fn path_views(v: Seq<String>) -> Seq<Seq<char>> {
    v.map_values(|s: String| s@)
}

/// The first position in `ps` of a path that is the same as `p`.
pub open spec fn first_index(ps: Seq<Seq<char>>, p: Seq<char>) -> Option<int>
    decreases ps.len(),
{
    if ps.len() == 0 {
        None
    } else {
        match first_index(ps.drop_last(), p) {
            Some(i) => Some(i),
            None => if same_path(ps.last(), p) {
                Some(ps.len() - 1)
            } else {
                None
            },
        }
    }
}

/// Whether `ps` holds a path that is the same as `p`.
pub open spec fn holds_path(ps: Seq<Seq<char>>, p: Seq<char>) -> bool {
    first_index(ps, p) is Some
}

/// `ps` without the first path that is the same as `p` (unchanged where
/// there is none).
pub open spec fn without_first(ps: Seq<Seq<char>>, p: Seq<char>) -> Seq<Seq<char>> {
    match first_index(ps, p) {
        Some(i) => ps.remove(i),
        None => ps,
    }
}

impl Tags {
    pub open spec fn view(&self) -> Seq<Seq<char>> {
        path_views(self.paths@)
    }

    /// No tags, the tag file not read yet.
    pub fn new() -> (r: Tags)
        ensures
            !r.loaded,
            r.view().len() == 0,
    {
        Tags { loaded: false, paths: Vec::new() }
    }

    /// Takes in the tag file's text: each of its lines is a tagged path,
    /// added after those known.
    pub fn load_text(&mut self, text: &str)
        ensures
            final(self).loaded,
            final(self).view() == old(self).view() + lines(text@),
    {
        let cs = str_to_chars(text);
        let ls = lines_chars(&cs);
        let mut i: usize = 0;
        while i < ls.len()
            invariant
                i <= ls@.len(),
                chars_of(ls@) == lines(text@),
                self.view() == old(self).view() + lines(text@).take(i as int),
            decreases ls.len() - i,
        {
            let ghost before = self.view();
            self.paths.push(chars_to_string(&ls[i]));
            assert(self.view() =~= before.push(ls@[i as int]@));
            assert(lines(text@).take(i + 1) =~= lines(text@).take(i as int).push(ls@[i as int]@));
            i += 1;
        }
        assert(lines(text@).take(i as int) =~= lines(text@));
        self.loaded = true;
    }

    /// The text of the tag file: each tagged path on a line of its own.
    pub fn text(&self) -> (r: String)
        ensures
            r@ == joined_lines(self.view()),
    {
        let mut out: Vec<char> = Vec::new();
        let mut i: usize = 0;
        assert(self.view().take(0) =~= Seq::<Seq<char>>::empty());
        while i < self.paths.len()
            invariant
                i <= self.paths@.len(),
                out@ == joined_lines(self.view().take(i as int)),
            decreases self.paths.len() - i,
        {
            let p = str_to_chars(self.paths[i].as_str());
            let mut k: usize = 0;
            let ghost start = out@;
            while k < p.len()
                invariant
                    k <= p@.len(),
                    out@ == start + p@.take(k as int),
                decreases p.len() - k,
            {
                out.push(p[k]);
                k += 1;
                assert(out@ =~= start + p@.take(k as int));
            }
            out.push('\n');
            assert(p@.take(p@.len() as int) =~= p@);
            assert(self.view().take(i + 1).drop_last() =~= self.view().take(i as int));
            assert(out@ =~= joined_lines(self.view().take(i + 1)));
            i += 1;
        }
        assert(self.view().take(i as int) =~= self.view());
        chars_to_string(&out)
    }

    /// Whether `path` is tagged; an error before the tag file was read.
    pub fn check(&self, path: &str) -> (r: Result<bool, TagError>)
        ensures
            !self.loaded ==> r == Err::<bool, TagError>(TagError::NotLoaded),
            self.loaded ==> r == Ok::<bool, TagError>(holds_path(self.view(), path@)),
    {
        if !self.loaded {
            return Err(TagError::NotLoaded);
        }
        let ghost v = self.view();
        let mut i: usize = 0;
        assert(v.take(0) =~= Seq::<Seq<char>>::empty());
        while i < self.paths.len()
            invariant
                i <= self.paths@.len(),
                v == self.view(),
                self.loaded,
                first_index(v.take(i as int), path@) is None,
            decreases self.paths.len() - i,
        {
            assert(v.take(i + 1).drop_last() =~= v.take(i as int));
            if paths_equal(self.paths[i].as_str(), path) {
                assert(first_index(v.take(i + 1), path@) == Some(i as int));
                proof {
                    lemma_first_index_prefix(v, (i + 1) as int, path@);
                }
                return Ok(true);
            }
            i += 1;
        }
        assert(v.take(i as int) =~= v);
        Ok(false)
    }

    /// Tags `path` (added last) or untags it (its first copy taken out).
    pub fn set(&mut self, path: &str, tagged: bool)
        ensures
            final(self).loaded == old(self).loaded,
            tagged ==> final(self).view() == old(self).view().push(path@),
            !tagged ==> final(self).view() == without_first(old(self).view(), path@),
    {
        if tagged {
            let ghost before = self.view();
            self.paths.push(String::from_str(path));
            assert(self.view() =~= before.push(path@));
        } else {
            let mut i: usize = 0;
            let ghost v = self.view();
            assert(v.take(0) =~= Seq::<Seq<char>>::empty());
            while i < self.paths.len()
                invariant
                    i <= self.paths@.len(),
                    !tagged,
                    v == self.view(),
                    self.loaded == old(self).loaded,
                    self.paths == old(self).paths,
                    first_index(v.take(i as int), path@) is None,
                decreases self.paths.len() - i,
            {
                assert(v.take(i + 1).drop_last() =~= v.take(i as int));
                if paths_equal(self.paths[i].as_str(), path) {
                    assert(first_index(v.take(i + 1), path@) == Some(i as int));
                    proof {
                        lemma_first_index_prefix(v, (i + 1) as int, path@);
                    }
                    self.paths.remove(i);
                    assert(self.view() =~= v.remove(i as int));
                    return;
                }
                i += 1;
            }
            assert(v.take(i as int) =~= v);
        }
    }
}

proof fn lemma_first_index_prefix(ps: Seq<Seq<char>>, n: int, p: Seq<char>)
    requires
        0 <= n <= ps.len(),
        first_index(ps.take(n), p) is Some,
    ensures
        first_index(ps, p) == first_index(ps.take(n), p),
    decreases ps.len() - n,
{
    if n < ps.len() {
        assert(ps.take(n + 1).drop_last() =~= ps.take(n));
        lemma_first_index_prefix(ps, n + 1, p);
    } else {
        assert(ps.take(n) =~= ps);
    }
}

impl File {
    /// Whether the file is tagged: its tag where it knows it, else whether
    /// `tags` hold its path (see `holds_path`) (an error before the tag file was read).
    pub fn is_tagged(&self, tags: &Tags) -> (r: Result<bool, TagError>)
        ensures
            match self.tag {
                Some(t) => r == Ok::<bool, TagError>(t),
                None => if tags.loaded {
                    r == Ok::<bool, TagError>(holds_path(tags.view(), self.path@))
                } else {
                    r == Err::<bool, TagError>(TagError::NotLoaded)
                },
            },
    {
        match self.tag {
            Some(t) => Ok(t),
            None => tags.check(self.path.as_str()),
        }
    }

    /// Flips the file's tag, looked up in `tags` where the file does not
    /// know it yet, and records the new state in `tags`; an error (and
    /// nothing changed) where it had to be looked up before the tag file
    /// was read.
    pub fn toggle_tag(&mut self, tags: &mut Tags) -> (r: Result<(), TagError>)
        ensures
            match old(self).tag {
                Some(t) => r is Ok && final(self).tag == Some(!t),
                None => if old(tags).loaded {
                    r is Ok && final(self).tag == Some(!holds_path(old(tags).view(), old(self).path@))
                } else {
                    r == Err::<(), TagError>(TagError::NotLoaded) && final(self).tag == old(self).tag
                },
            },
            r is Ok ==> (final(self).tag == Some(true) ==> final(tags).view() == old(tags).view().push(
                old(self).path@,
            )) && (final(self).tag == Some(false) ==> final(tags).view() == without_first(
                old(tags).view(),
                old(self).path@,
            )),
            r is Err ==> final(tags).view() == old(tags).view(),
            final(tags).loaded == old(tags).loaded,
            final(self)@ == (crate::files::FileView { tag: final(self).tag, ..old(self)@ }),
    {
        let new_state = match self.tag {
            Some(t) => !t,
            None => match tags.check(self.path.as_str()) {
                Ok(t) => !t,
                Err(e) => return Err(e),
            },
        };
        self.tag = Some(new_state);
        tags.set(self.path.as_str(), new_state);
        Ok(())
    }
}


/// What the tags write to the tag file (`text`) is read back by
/// `load_text` as the same paths, where no tagged path holds a newline or
/// ends with a carriage return.
pub proof fn lemma_tags_round_trip(tags: Tags)
    requires
        forall|i: int| 0 <= i < tags.view().len() ==> plain_line(#[trigger] tags.view()[i]),
    ensures
        lines(joined_lines(tags.view())) == tags.view(),
{
    lemma_lines_of_joined(tags.view());
}

} // verus!
