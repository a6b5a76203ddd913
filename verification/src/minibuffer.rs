//! The minibuffer's input history: lines entered before, kept per kind of
//! query, stepped through backward and forward, and stored in a file as
//! `kind:line` lines.
use vstd::prelude::*;
use crate::actions::MiniBufferAction;
use crate::coordinates::Coordinates;
use crate::term::{
    clear_line_sequence, concat, decimal, display_width, goto_code, goto_xy, header_color, push_decimal,
    str_width, fg_code, bg_code,
};
use crate::text::{
    joined_lines, lemma_lines_of_joined, plain_line,
    chars_eq, chars_of, chars_to_string, find, lines, lines_chars, rfind, rfind_chars, str_to_chars,
    sub_chars, trim_end, trim_end_chars, lemma_rfind_props, lemma_trailing_ws_bound,
    is_whitespace, trailing_ws,
};

verus! {

/// History entries: each kind of query with its lines, oldest first.
pub type HistoryView = Seq<(Seq<char>, Seq<Seq<char>>)>;

/// The lines kept for `kind`, if any were.
pub open spec fn hist_get(h: HistoryView, kind: Seq<char>) -> Option<Seq<Seq<char>>>
    decreases h.len(),
{
    if h.len() == 0 {
        None
    } else if h[0].0 == kind {
        Some(h[0].1)
    } else {
        hist_get(h.drop_first(), kind)
    }
}

/// `h` with `line` added at the end of the lines of `kind`.
pub open spec fn hist_add(h: HistoryView, kind: Seq<char>, line: Seq<char>) -> HistoryView
    decreases h.len(),
{
    if h.len() == 0 {
        seq![(kind, seq![line])]
    } else if h[0].0 == kind {
        seq![(kind, h[0].1.push(line))] + h.drop_first()
    } else {
        seq![h[0]] + hist_add(h.drop_first(), kind, line)
    }
}

/// Whether no kind occurs twice.
pub open spec fn kinds_unique(h: HistoryView) -> bool {
    forall|i: int, j: int| 0 <= i < j < h.len() ==> h[i].0 != h[j].0
}

/// A line of the history file cut at its first `:` into kind and line.
pub open spec fn split_entry(l: Seq<char>) -> Option<(Seq<char>, Seq<char>)> {
    match find(l, ':') {
        Some(p) => Some((l.take(p), l.skip(p + 1))),
        None => None,
    }
}

/// The history read from the lines `ls` of the history file, one after the
/// other; lines without `:` are skipped.
pub open spec fn parse_history(ls: Seq<Seq<char>>) -> HistoryView
    decreases ls.len(),
{
    if ls.len() == 0 {
        Seq::empty()
    } else {
        let h = parse_history(ls.drop_last());
        match split_entry(ls.last()) {
            Some((k, v)) => hist_add(h, k, v),
            None => h,
        }
    }
}

/// The lines of one kind in the history file.
pub open spec fn kind_text(kind: Seq<char>, ls: Seq<Seq<char>>) -> Seq<char>
    decreases ls.len(),
{
    if ls.len() == 0 {
        Seq::empty()
    } else {
        kind_text(kind, ls.drop_last()) + kind + seq![':'] + ls.last() + seq!['\n']
    }
}

/// The text of the history file: every line as `kind:line`, kind by kind.
pub open spec fn history_text(h: HistoryView) -> Seq<char>
    decreases h.len(),
{
    if h.len() == 0 {
        Seq::empty()
    } else {
        history_text(h.drop_last()) + kind_text(h.last().0, h.last().1)
    }
}

/// Whether `p` is a place in the lines `ls` (at most their number); a
/// place beyond makes the history panic.
pub open spec fn within(ls: Option<Seq<Seq<char>>>, p: int) -> bool {
    match ls {
        Some(l) => p <= l.len(),
        None => true,
    }
}

/// Why no line comes from the history.
#[derive(Clone, Copy, Debug, PartialEq, Eq, Structural)]
pub enum HistoryError {
    /// Nothing was ever entered for this kind of query.
    NoSuchKind,
    /// The kind has no lines.
    NoHistory,
}

/// The input history and the place reached in it.
#[derive(Debug)]
pub struct History {
    pub history: Vec<(String, Vec<String>)>,
    pub position: Option<usize>,
    pub loaded: bool,
}

pub open spec fn entry_view(e: (String, Vec<String>)) -> (Seq<char>, Seq<Seq<char>>) {
    (e.0@, e.1@.map_values(|s: String| s@))
}

impl History {
    pub open spec fn view(&self) -> HistoryView {
        self.history@.map_values(|e: (String, Vec<String>)| entry_view(e))
    }

    /// An empty history, not read from the file yet.
    pub fn new() -> (r: History)
        ensures
            r.view().len() == 0,
            r.position is None,
            !r.loaded,
    {
        History { history: Vec::new(), position: None, loaded: false }
    }

    /// Goes back to the end of the history.
    pub fn reset(&mut self)
        ensures
            final(self).position is None,
            final(self).view() == old(self).view(),
            final(self).loaded == old(self).loaded,
    {
        self.position = None;
    }

    fn find_kind(&self, kind: &[char]) -> (r: Option<usize>)
        ensures
            match r {
                Some(i) => i < self.view().len() && self.view()[i as int].0 == kind@ && (forall|
                    j: int,
                | 0 <= j < i ==> self.view()[j].0 != kind@),
                None => forall|j: int| 0 <= j < self.view().len() ==> self.view()[j].0 != kind@,
            },
    {
        let mut i: usize = 0;
        while i < self.history.len()
            invariant
                i <= self.history@.len(),
                forall|j: int| 0 <= j < i ==> self.view()[j].0 != kind@,
            decreases self.history.len() - i,
        {
            let k = str_to_chars(self.history[i].0.as_str());
            if chars_eq(&k, kind) {
                return Some(i);
            }
            i += 1;
        }
        None
    }

    /// Adds `line` to the lines of `kind`.
    pub fn add(&mut self, kind: &str, line: &str)
        ensures
            final(self).view() == hist_add(old(self).view(), kind@, line@),
            final(self).position == old(self).position,
            final(self).loaded == old(self).loaded,
    {
        let k = str_to_chars(kind);
        let l = String::from_str(line);
        let ghost before = self.view();
        match self.find_kind(&k) {
            Some(i) => {
                let ghost old_hist = self.history@;
                let mut entry = self.history.remove(i);
                assert(entry == old_hist[i as int]);
                let ghost old_lines = entry.1@;
                entry.1.push(l);
                assert(entry.1@ == old_lines.push(l));
                let ghost e = entry;
                self.history.insert(i, entry);
                assert(self.history@ =~= old_hist.update(i as int, e));
                assert(e.1@.map_values(|s: String| s@) =~= before[i as int].1.push(line@));
                assert(entry_view(e) == (kind@, before[i as int].1.push(line@)));
                proof {
                    lemma_hist_add_at(before, i as int, kind@, line@);
                }
                assert(self.view() =~= before.update(
                    i as int,
                    (kind@, before[i as int].1.push(line@)),
                ));
            },
            None => {
                let mut lines: Vec<String> = Vec::new();
                lines.push(l);
                let e = (String::from_str(kind), lines);
                assert(e.1@.map_values(|s: String| s@) =~= seq![line@]);
                assert(entry_view(e) == (kind@, seq![line@]));
                self.history.push(e);
                proof {
                    lemma_hist_add_new(before, kind@, line@);
                }
                assert(self.view() =~= before.push((kind@, seq![line@])));
            },
        }
    }

    /// Reads the history file's text, unless it was read before.
    pub fn load_text(&mut self, text: &str)
        ensures
            old(self).loaded ==> final(self).view() == old(self).view(),
            !old(self).loaded ==> final(self).view() == parse_history(lines(text@)),
            final(self).loaded,
            final(self).position == old(self).position,
    {
        if self.loaded {
            return;
        }
        let cs = str_to_chars(text);
        let ls = lines_chars(&cs);
        let ghost l = lines(text@);
        self.history = Vec::new();
        let mut i: usize = 0;
        assert(l.take(0) =~= Seq::<Seq<char>>::empty());
        assert(self.view() =~= Seq::<(Seq<char>, Seq<Seq<char>>)>::empty());
        while i < ls.len()
            invariant
                i <= ls@.len(),
                chars_of(ls@) == l,
                self.view() == parse_history(l.take(i as int)),
                self.position == old(self).position,
            decreases ls.len() - i,
        {
            let line = &ls[i];
            assert(line@ == l[i as int]);
            assert(l.take(i + 1).drop_last() =~= l.take(i as int));
            match find_char(line, ':') {
                Some(p) => {
                    let k = sub_chars(line, 0, p);
                    let v = sub_chars(line, p + 1, line.len());
                    assert(k@ =~= line@.take(p as int));
                    assert(v@ =~= line@.skip(p + 1));
                    let ks = chars_to_string(&k);
                    let vs = chars_to_string(&v);
                    self.add(ks.as_str(), vs.as_str());
                },
                None => {},
            }
            i += 1;
        }
        assert(l.take(i as int) =~= l);
        self.loaded = true;
    }

    /// The text to store in the history file.
    pub fn save_text(&self) -> (r: String)
        ensures
            r@ == history_text(self.view()),
    {
        let mut out: Vec<char> = Vec::new();
        let mut i: usize = 0;
        assert(self.view().take(0) =~= Seq::<(Seq<char>, Seq<Seq<char>>)>::empty());
        while i < self.history.len()
            invariant
                i <= self.history@.len(),
                out@ == history_text(self.view().take(i as int)),
            decreases self.history.len() - i,
        {
            let kind = str_to_chars(self.history[i].0.as_str());
            let entries = &self.history[i].1;
            let ghost before = out@;
            let ghost lv = self.view()[i as int].1;
            let mut j: usize = 0;
            assert(lv.take(0) =~= Seq::<Seq<char>>::empty());
            while j < entries.len()
                invariant
                    j <= entries@.len(),
                    lv == entries@.map_values(|s: String| s@),
                    kind@ == self.view()[i as int].0,
                    out@ == before + kind_text(kind@, lv.take(j as int)),
                decreases entries.len() - j,
            {
                let line = str_to_chars(entries[j].as_str());
                let ghost mid = out@;
                append(&mut out, &kind);
                out.push(':');
                append(&mut out, &line);
                out.push('\n');
                assert(lv.take(j + 1).drop_last() =~= lv.take(j as int));
                assert(out@ =~= mid + kind@ + seq![':'] + line@ + seq!['\n']);
                j += 1;
            }
            assert(lv.take(j as int) =~= lv);
            assert(self.view().take(i + 1).drop_last() =~= self.view().take(i as int));
            i += 1;
        }
        assert(self.view().take(i as int) =~= self.view());
        chars_to_string(&out)
    }

    /// The line before the place reached in the lines of `kind` (the last
    /// line when no place is reached yet or the first was reached).
    pub fn get_prev(&mut self, kind: &str) -> (r: Result<String, HistoryError>)
        requires
            match old(self).position {
                Some(p) => p != 0 ==> within(hist_get(old(self).view(), kind@), p as int),
                None => true,
            },
        ensures
            match hist_get(old(self).view(), kind@) {
                None => r == Err::<String, HistoryError>(HistoryError::NoSuchKind)
                    && final(self).position == old(self).position,
                Some(ls) => if ls.len() == 0 {
                    r == Err::<String, HistoryError>(HistoryError::NoHistory)
                        && final(self).position == old(self).position
                } else {
                    let p: int = match old(self).position {
                        Some(p) if p != 0 => p - 1,
                        _ => ls.len() - 1,
                    };
                    r matches Ok(s) && s@ == ls[p] && final(self).position == Some(p as usize)
                },
            },
            final(self).view() == old(self).view(),
            final(self).loaded == old(self).loaded,
    {
        let k = str_to_chars(kind);
        let i = match self.find_kind(&k) {
            Some(i) => i,
            None => {
                proof {
                    lemma_hist_get_none(self.view(), kind@);
                }
                return Err(HistoryError::NoSuchKind);
            },
        };
        proof {
            lemma_hist_get_at(self.view(), i as int, kind@);
        }
        let history = &self.history[i].1;
        let mut position = self.position;
        let hist_len = history.len();
        if position == Some(0usize) {
            position = None;
        }
        if hist_len == 0 {
            return Err(HistoryError::NoHistory);
        }
        match position {
            Some(p) => {
                let historic = history[p - 1].clone();
                self.position = Some(p - 1);
                Ok(historic)
            },
            None => {
                let historic = history[hist_len - 1].clone();
                self.position = Some(hist_len - 1);
                Ok(historic)
            },
        }
    }

    /// The line at the place reached in the lines of `kind` (the first line
    /// when no place is reached yet or the end was reached), stepping forward.
    pub fn get_next(&mut self, kind: &str) -> (r: Result<String, HistoryError>)
        requires
            match old(self).position {
                Some(p) => within(hist_get(old(self).view(), kind@), p as int),
                None => true,
            },
        ensures
            match hist_get(old(self).view(), kind@) {
                None => r == Err::<String, HistoryError>(HistoryError::NoSuchKind)
                    && final(self).position == old(self).position,
                Some(ls) => if ls.len() == 0 {
                    r == Err::<String, HistoryError>(HistoryError::NoHistory)
                        && final(self).position == old(self).position
                } else {
                    let p: int = match old(self).position {
                        Some(p) if p != ls.len() => p as int,
                        _ => 0,
                    };
                    r matches Ok(s) && s@ == ls[p] && final(self).position == Some((p + 1) as usize)
                },
            },
            final(self).view() == old(self).view(),
            final(self).loaded == old(self).loaded,
    {
        let k = str_to_chars(kind);
        let i = match self.find_kind(&k) {
            Some(i) => i,
            None => {
                proof {
                    lemma_hist_get_none(self.view(), kind@);
                }
                return Err(HistoryError::NoSuchKind);
            },
        };
        proof {
            lemma_hist_get_at(self.view(), i as int, kind@);
        }
        let history = &self.history[i].1;
        let mut position = self.position;
        let hist_len = history.len();
        if hist_len == 0 {
            return Err(HistoryError::NoHistory);
        }
        if position == Some(hist_len) || position.is_none() {
            position = Some(0);
        }
        match position {
            Some(p) => {
                let historic = history[p].clone();
                self.position = Some(p + 1);
                Ok(historic)
            },
            None => {
                let historic = history[0].clone();
                self.position = Some(1);
                Ok(historic)
            },
        }
    }
}

fn append(out: &mut Vec<char>, s: &Vec<char>)
    ensures
        final(out)@ == old(out)@ + s@,
{
    let mut i: usize = 0;
    while i < s.len()
        invariant
            i <= s@.len(),
            out@ == old(out)@ + s@.take(i as int),
        decreases s.len() - i,
    {
        out.push(s[i]);
        i += 1;
        assert(out@ =~= old(out)@ + s@.take(i as int));
    }
    assert(s@.take(i as int) =~= s@);
}

fn find_char(s: &[char], c: char) -> (r: Option<usize>)
    ensures
        match find(s@, c) {
            Some(p) => r == Some(p as usize) && p < s@.len(),
            None => r is None,
        },
        r matches Some(i) ==> i < s@.len() && find(s@, c) == Some(i as int),
{
    let mut i: usize = 0;
    assert(s@.skip(0) =~= s@);
    while i < s.len()
        invariant
            i <= s@.len(),
            find(s@, c) == match find(s@.skip(i as int), c) {
                Some(p) => Some(p + i),
                None => None::<int>,
            },
        decreases s.len() - i,
    {
        assert(s@.skip(i as int)[0] == s@[i as int]);
        assert(s@.skip(i as int).drop_first() =~= s@.skip(i + 1));
        if s[i] == c {
            return Some(i);
        }
        i += 1;
    }
    assert(s@.skip(i as int) =~= Seq::<char>::empty());
    None
}

proof fn lemma_hist_get_at(h: HistoryView, i: int, kind: Seq<char>)
    requires
        0 <= i < h.len(),
        h[i].0 == kind,
        forall|j: int| 0 <= j < i ==> h[j].0 != kind,
    ensures
        hist_get(h, kind) == Some(h[i].1),
    decreases i,
{
    if i > 0 {
        lemma_hist_get_at(h.drop_first(), i - 1, kind);
    }
}

proof fn lemma_hist_get_none(h: HistoryView, kind: Seq<char>)
    requires
        forall|j: int| 0 <= j < h.len() ==> h[j].0 != kind,
    ensures
        hist_get(h, kind) is None,
    decreases h.len(),
{
    if h.len() > 0 {
        lemma_hist_get_none(h.drop_first(), kind);
    }
}

proof fn lemma_hist_add_at(h: HistoryView, i: int, kind: Seq<char>, line: Seq<char>)
    requires
        0 <= i < h.len(),
        h[i].0 == kind,
        forall|j: int| 0 <= j < i ==> h[j].0 != kind,
    ensures
        hist_add(h, kind, line) == h.update(i, (kind, h[i].1.push(line))),
    decreases i,
{
    if i > 0 {
        lemma_hist_add_at(h.drop_first(), i - 1, kind, line);
        assert(seq![h[0]] + h.drop_first().update(i - 1, (kind, h[i].1.push(line))) =~= h.update(
            i,
            (kind, h[i].1.push(line)),
        ));
    } else {
        assert(seq![(kind, h[0].1.push(line))] + h.drop_first() =~= h.update(
            0,
            (kind, h[0].1.push(line)),
        ));
    }
}

proof fn lemma_hist_add_new(h: HistoryView, kind: Seq<char>, line: Seq<char>)
    requires
        forall|j: int| 0 <= j < h.len() ==> h[j].0 != kind,
    ensures
        hist_add(h, kind, line) == h.push((kind, seq![line])),
    decreases h.len(),
{
    if h.len() > 0 {
        lemma_hist_add_new(h.drop_first(), kind, line);
        assert(seq![h[0]] + h.drop_first().push((kind, seq![line])) =~= h.push(
            (kind, seq![line]),
        ));
    }
}

/// After a line is added for a kind of query, that kind's lines are the
/// ones it had with the new line last; other kinds keep theirs.
pub proof fn lemma_get_after_add(h: HistoryView, kind: Seq<char>, line: Seq<char>, other: Seq<char>)
    ensures
        hist_get(hist_add(h, kind, line), kind) == Some(
            match hist_get(h, kind) {
                Some(ls) => ls,
                None => Seq::<Seq<char>>::empty(),
            }.push(line),
        ),
        other != kind ==> hist_get(hist_add(h, kind, line), other) == hist_get(h, other),
    decreases h.len(),
{
    let a = hist_add(h, kind, line);
    if h.len() == 0 {
        assert(a == seq![(kind, seq![line])]);
        assert(a.drop_first() =~= Seq::<(Seq<char>, Seq<Seq<char>>)>::empty());
        assert(hist_get(a.drop_first(), other) is None);
        assert(seq![line] =~= Seq::<Seq<char>>::empty().push(line));
    } else if h[0].0 == kind {
        assert(a == seq![(kind, h[0].1.push(line))] + h.drop_first());
        assert(a[0] == (kind, h[0].1.push(line)));
        assert(a.drop_first() =~= h.drop_first());
    } else {
        lemma_get_after_add(h.drop_first(), kind, line, other);
        assert(a == seq![h[0]] + hist_add(h.drop_first(), kind, line));
        assert(a[0] == h[0]);
        assert(a.drop_first() =~= hist_add(h.drop_first(), kind, line));
    }
}


/// `s` with every copy of `p` at its end taken off, one after the other, as
/// `str::trim_end_matches` does with a string pattern.
pub open spec fn trim_suffixes(s: Seq<char>, p: Seq<char>) -> Seq<char>
    decreases s.len(),
{
    if p.len() > 0 && p.len() <= s.len() && s.skip(s.len() - p.len()) == p {
        trim_suffixes(s.take(s.len() - p.len()), p)
    } else {
        s
    }
}

/// The word being completed: what follows the last space (all of `s` when
/// there is none).
pub open spec fn last_word(s: Seq<char>) -> Seq<char> {
    match rfind(s, ' ') {
        Some(i) => s.skip(i + 1),
        None => s,
    }
}

/// How much of `before` (the text left of the cursor) deleting a word keeps:
/// trailing blanks go first; else a trailing `/`; else everything after the
/// last `/` or space, which stays.
pub open spec fn word_start(before: Seq<char>) -> int {
    let t = trim_end(before);
    if t.len() != before.len() {
        t.len() as int
    } else if before.len() > 0 && before.last() == '/' {
        before.len() - 1
    } else {
        match (rfind(before, '/'), rfind(before, ' ')) {
            (Some(d), Some(w)) => if d > w {
                d + 1
            } else {
                w + 1
            },
            (Some(d), None) => d + 1,
            (None, Some(w)) => w + 1,
            (None, None) => 0,
        }
    }
}

/// What a prompt that runs on reports to the widget that asked.
#[derive(Clone, Debug, PartialEq, Eq)]
pub enum MiniBufferEvent {
    /// The input is done.
    Done(String),
    /// The input changed.
    NewInput(String),
    /// The input was finished empty.
    Empty,
    /// The input was given up.
    Cancelled,
    /// The next match is wanted.
    CycleNext,
    /// The previous match is wanted.
    CyclePrev,
}

/// What the prompt tells its owner after a key.
#[derive(Clone, Debug, PartialEq, Eq)]
pub enum MiniBufferSignal {
    /// The line was edited (or left as it was); nothing else happened.
    Edited,
    /// The input was given up and the line cleared.
    Cancelled,
    /// The input is done.
    Finished,
    /// The prompt runs continuously and the line changed: here it is.
    Updated(String),
    /// Completing needs the names that start with this word.
    Lookup(String),
}

/// The line the user types into at the bottom of the screen, with its
/// cursor, its query, the history, and the completions still to cycle through.
#[derive(Debug)]
pub struct MiniBuffer {
    pub coordinates: Coordinates,
    pub query: String,
    pub input: Vec<char>,
    pub position: usize,
    pub history: History,
    pub completions: Vec<String>,
    pub last_completion: Option<String>,
    pub continuous: bool,
}

impl MiniBuffer {
    /// What stays true between keys: the history's place is one in the
    /// lines of this query, and completions left come with the one shown.
    pub open spec fn wf(&self) -> bool {
        &&& place_ok(&self.history, self.query@)
        &&& (self.completions@.len() > 0 ==> self.last_completion is Some)
    }

    /// Whether the cursor is on the line (at most just past its end).
    pub open spec fn cursor_ok(&self) -> bool {
        self.position <= self.input@.len()
    }

    /// Everything but the line, the cursor and the completions is as in `other`.
    pub open spec fn same_setting(&self, other: &MiniBuffer) -> bool {
        &&& self.coordinates == other.coordinates
        &&& self.query == other.query
        &&& self.history == other.history
        &&& self.continuous == other.continuous
    }

    /// An empty prompt on the bottom row of a terminal `xsize` columns wide
    /// and `ysize` rows high.
    pub fn new(xsize: u16, ysize: u16) -> (r: MiniBuffer)
        ensures
            r.wf(),
            r.cursor_ok(),
            r.coordinates.size.0 == (xsize, 1u16),
            r.coordinates.position.0 == (1u16, ysize),
            r.query@.len() == 0,
            r.input@.len() == 0,
            r.position == 0,
            r.history.view().len() == 0,
            r.history.position is None,
            !r.history.loaded,
            r.completions@.len() == 0,
            r.last_completion is None,
            !r.continuous,
    {
        MiniBuffer {
            coordinates: Coordinates::new_at(xsize, 1, 1, ysize),
            query: String::new(),
            input: Vec::new(),
            position: 0,
            history: History::new(),
            completions: Vec::new(),
            last_completion: None,
            continuous: false,
        }
    }

    /// The line as a string.
    pub fn input_text(&self) -> (r: String)
        ensures
            r@ == self.input@,
    {
        chars_to_string(&self.input)
    }

    /// Empties the line and forgets the place in the history and the completions.
    pub fn clear(&mut self)
        ensures
            final(self).wf(),
            final(self).cursor_ok(),
            final(self).input@.len() == 0,
            final(self).position == 0,
            final(self).history.view() == old(self).history.view(),
            final(self).history.loaded == old(self).history.loaded,
            final(self).history.position is None,
            final(self).completions@.len() == 0,
            final(self).last_completion is None,
            final(self).coordinates == old(self).coordinates,
            final(self).query == old(self).query,
            final(self).continuous == old(self).continuous,
    {
        self.input.clear();
        self.position = 0;
        self.history.reset();
        self.completions.clear();
        self.last_completion = None;
    }

    /// Starts asking `query`; the line is kept only when the prompt runs on
    /// (`cont`) with the same query.
    pub fn start_query(&mut self, query: &str, cont: bool)
        requires
            old(self).wf(),
        ensures
            final(self).wf(),
            final(self).continuous == cont,
            final(self).query@ == query@,
            final(self).coordinates == old(self).coordinates,
            final(self).history.view() == old(self).history.view(),
            (cont && old(self).query@ == query@) ==> final(self).input == old(self).input
                && final(self).position == old(self).position && final(self).history
                == old(self).history && final(self).completions == old(self).completions
                && final(self).last_completion == old(self).last_completion,
            !(cont && old(self).query@ == query@) ==> final(self).input@.len() == 0
                && final(self).position == 0 && final(self).history.position is None
                && final(self).completions@.len() == 0 && final(self).last_completion is None,
    {
        self.continuous = cont;
        let q = str_to_chars(self.query.as_str());
        let same = chars_eq(&q, &str_to_chars(query));
        if !cont || !same {
            self.query = String::from_str(query);
            self.clear();
        }
    }

    /// The line once asking is over, or `None` when it is empty (the
    /// prompt is then cleared).
    pub fn finish_query(&mut self) -> (r: Option<String>)
        requires
            old(self).wf(),
        ensures
            final(self).wf(),
            old(self).input@.len() == 0 ==> r is None && final(self).input@.len() == 0
                && final(self).position == 0 && final(self).history.position is None
                && final(self).completions@.len() == 0,
            old(self).input@.len() > 0 ==> (r matches Some(s) && s@ == old(self).input@
                && final(self).input == old(self).input && final(self).position == old(self).position
                && final(self).history == old(self).history),
            final(self).same_setting(old(self)) || old(self).input@.len() == 0,
            final(self).query == old(self).query,
    {
        if self.input.len() == 0 {
            self.clear();
            None
        } else {
            Some(self.input_text())
        }
    }

    /// Cycles to the next completion: the last one shown (every copy of it at
    /// the end of the line) is taken off and the cursor moved back by its
    /// length, then the next one is put in its place. `false` where there is
    /// no completion shown or none left (the line then stays trimmed).
    pub fn cycle_completions(&mut self) -> (r: bool)
        requires
            old(self).wf(),
            old(self).completions@.len() > 0 ==> old(self).position
                + old(self).completions@.last()@.len() <= usize::MAX,
        ensures
            final(self).wf(),
            final(self).same_setting(old(self)),
            match old(self).last_completion {
                None => !r && final(self).input == old(self).input && final(self).position
                    == old(self).position && final(self).completions == old(self).completions
                    && final(self).last_completion == old(self).last_completion,
                Some(last) => {
                    let trimmed = trim_suffixes(old(self).input@, last@);
                    let back: int = if old(self).position >= last@.len() {
                        old(self).position - last@.len()
                    } else {
                        0
                    };
                    if old(self).completions@.len() == 0 {
                        !r && final(self).input@ == trimmed && final(self).position == back
                            && final(self).completions@.len() == 0 && final(self).last_completion
                            == old(self).last_completion
                    } else {
                        let next = old(self).completions@.last();
                        r && final(self).input@ == trimmed + next@ && final(self).position == back
                            + next@.len() && final(self).completions@
                            == old(self).completions@.drop_last() && final(self).last_completion
                            == Some(next)
                    }
                },
            },
    {
        let last = match &self.last_completion {
            Some(l) => str_to_chars(l.as_str()),
            None => return false,
        };
        let trimmed = trim_suffix_chars(&self.input, &last);
        self.input = trimmed;
        let last_len = last.len();
        self.position = if self.position >= last_len {
            self.position - last_len
        } else {
            0
        };
        match self.completions.pop() {
            None => false,
            Some(next) => {
                let nc = str_to_chars(next.as_str());
                let ghost before = self.input@;
                append_chars(&mut self.input, &nc);
                self.position = self.position + nc.len();
                self.last_completion = Some(next);
                true
            },
        }
    }

    /// Starts completing. After a space, `$s` is put in; where completions
    /// are left, the next one is cycled to; else the word before has to be
    /// looked up, and the signal names it.
    pub fn complete(&mut self) -> (r: MiniBufferSignal)
        requires
            old(self).wf(),
            old(self).input@.len() + 2 <= usize::MAX,
            old(self).position + 2 <= usize::MAX,
            old(self).completions@.len() > 0 ==> old(self).position
                + old(self).completions@.last()@.len() <= usize::MAX,
        ensures
            final(self).wf(),
            final(self).same_setting(old(self)),
            completed(old(self), final(self), r),
    {
        let n = self.input.len();
        if n > 0 && self.input[n - 1] == ' ' {
            self.input.push('$');
            self.input.push('s');
            self.position = self.position + 2;
            assert(self.input@ =~= old(self).input@ + seq!['$', 's']);
            return MiniBufferSignal::Edited;
        }
        if self.completions.len() > 0 {
            self.cycle_completions();
            return MiniBufferSignal::Edited;
        }
        let w = last_word_chars(&self.input);
        MiniBufferSignal::Lookup(chars_to_string(&w))
    }

    /// Ends a completion whose word was looked up: the last name `found`
    /// takes the word's place and the cursor moves on by the difference; the
    /// other names are kept to cycle through. `false` where nothing was found.
    pub fn complete_with(&mut self, found: Vec<String>) -> (r: bool)
        requires
            old(self).wf(),
            found@.len() > 0 ==> last_word(old(self).input@).len() <= found@.last()@.len(),
            found@.len() > 0 ==> old(self).position + found@.last()@.len() <= usize::MAX,
        ensures
            final(self).wf(),
            final(self).same_setting(old(self)),
            found@.len() == 0 ==> !r && final(self).input == old(self).input && final(self).position
                == old(self).position && final(self).completions == old(self).completions
                && final(self).last_completion == old(self).last_completion,
            found@.len() > 0 ==> {
                let w = last_word(old(self).input@);
                let c = found@.last();
                &&& r
                &&& final(self).input@ == old(self).input@.take(old(self).input@.len() - w.len())
                    + c@
                &&& final(self).position == old(self).position + c@.len() - w.len()
                &&& final(self).completions@ == found@.drop_last()
                &&& final(self).last_completion == Some(c)
            },
    {
        let mut found = found;
        let c = match found.pop() {
            Some(c) => c,
            None => return false,
        };
        let w = last_word_chars(&self.input);
        proof {
            lemma_last_word_suffix(self.input@);
        }
        let cc = str_to_chars(c.as_str());
        let keep = self.input.len() - w.len();
        let mut line = sub_chars(&self.input, 0, keep);
        append_chars(&mut line, &cc);
        self.input = line;
        self.position = self.position + cc.len() - w.len();
        self.last_completion = Some(c);
        self.completions = found;
        true
    }

    /// Steps back in the history of this query; the line found replaces
    /// the input, with the cursor at its end.
    pub fn history_up(&mut self)
        requires
            old(self).wf(),
        ensures
            final(self).wf(),
            final(self).coordinates == old(self).coordinates,
            final(self).query == old(self).query,
            final(self).continuous == old(self).continuous,
            final(self).completions == old(self).completions,
            final(self).last_completion == old(self).last_completion,
            final(self).history.view() == old(self).history.view(),
            final(self).history.loaded == old(self).history.loaded,
            final(self).cursor_ok() || (final(self).input == old(self).input && final(self).position
                == old(self).position),
            match hist_get(old(self).history.view(), old(self).query@) {
                Some(ls) if ls.len() > 0 => {
                    let p: int = match old(self).history.position {
                        Some(p) if p != 0 => p - 1,
                        _ => ls.len() - 1,
                    };
                    final(self).input@ == ls[p] && final(self).position == ls[p].len()
                        && final(self).history.position == Some(p as usize)
                },
                _ => final(self).input == old(self).input && final(self).position == old(self).position
                    && final(self).history.position == old(self).history.position,
            },
    {
        match self.history.get_prev(self.query.as_str()) {
            Ok(h) => {
                let hc = str_to_chars(h.as_str());
                self.position = hc.len();
                self.input = hc;
            },
            Err(_) => {},
        }
    }

    /// Steps forward in the history of this query, as `history_up` does back.
    pub fn history_down(&mut self)
        requires
            old(self).wf(),
        ensures
            final(self).wf(),
            final(self).coordinates == old(self).coordinates,
            final(self).query == old(self).query,
            final(self).continuous == old(self).continuous,
            final(self).completions == old(self).completions,
            final(self).last_completion == old(self).last_completion,
            final(self).history.view() == old(self).history.view(),
            final(self).history.loaded == old(self).history.loaded,
            final(self).cursor_ok() || (final(self).input == old(self).input && final(self).position
                == old(self).position),
            match hist_get(old(self).history.view(), old(self).query@) {
                Some(ls) if ls.len() > 0 => {
                    let p: int = match old(self).history.position {
                        Some(p) if p != ls.len() => p as int,
                        _ => 0,
                    };
                    final(self).input@ == ls[p] && final(self).position == ls[p].len()
                        && final(self).history.position == Some((p + 1) as usize)
                },
                _ => final(self).input == old(self).input && final(self).position == old(self).position
                    && final(self).history.position == old(self).history.position,
            },
    {
        match self.history.get_next(self.query.as_str()) {
            Ok(h) => {
                let hc = str_to_chars(h.as_str());
                self.position = hc.len();
                self.input = hc;
            },
            Err(_) => {},
        }
    }

    /// Empties the line.
    pub fn clear_line(&mut self)
        ensures
            final(self).input@.len() == 0,
            final(self).position == 0,
            final(self).same_setting(old(self)),
            final(self).completions == old(self).completions,
            final(self).last_completion == old(self).last_completion,
    {
        self.input.clear();
        self.position = 0;
    }

    /// Deletes the word left of the cursor (see `word_start`).
    pub fn delete_word(&mut self)
        requires
            old(self).cursor_ok(),
        ensures
            ({
                let before = old(self).input@.take(old(self).position as int);
                let k = word_start(before);
                &&& 0 <= k <= old(self).position
                &&& final(self).input@ == old(self).input@.take(k) + old(self).input@.skip(
                    old(self).position as int,
                )
                &&& final(self).position == k
            }),
            final(self).cursor_ok(),
            final(self).same_setting(old(self)),
            final(self).completions == old(self).completions,
            final(self).last_completion == old(self).last_completion,
    {
        let pos = self.position;
        let before = sub_chars(&self.input, 0, pos);
        assert(before@ =~= self.input@.take(pos as int));
        let k = word_start_of(&before);
        let mut line = sub_chars(&self.input, 0, k);
        let rest = sub_chars(&self.input, pos, self.input.len());
        append_chars(&mut line, &rest);
        assert(line@ =~= old(self).input@.take(k as int) + old(self).input@.skip(pos as int));
        self.input = line;
        self.position = k;
    }

    /// Carries out an editing action (the line, the cursor, the history);
    /// the signal says what the owner has to do next.
    pub fn do_action(&mut self, action: &MiniBufferAction) -> (r: MiniBufferSignal)
        requires
            old(self).wf(),
            old(self).cursor_ok(),
            *action matches MiniBufferAction::InsertTab(n) ==> n >= 1,
            old(self).input@.len() + 2 <= usize::MAX,
            old(self).completions@.len() > 0 ==> old(self).position
                + old(self).completions@.last()@.len() <= usize::MAX,
        ensures
            final(self).wf(),
            final(self).coordinates == old(self).coordinates,
            final(self).query == old(self).query,
            final(self).continuous == old(self).continuous,
            final(self).history.loaded == old(self).history.loaded,
            match *action {
                MiniBufferAction::InsertChar(c) => r == MiniBufferSignal::Edited
                    && final(self).input@ == old(self).input@.insert(old(self).position as int, c)
                    && final(self).position == old(self).position + 1 && unchanged_aside(
                    final(self),
                    old(self),
                ),
                MiniBufferAction::InsertTab(n) => r == MiniBufferSignal::Edited
                    && final(self).input@ == old(self).input@.take(old(self).position as int) + (
                seq!['$'] + decimal((n - 1) as nat)) + old(self).input@.skip(
                    old(self).position as int,
                ) && final(self).position == old(self).position + 2 && unchanged_aside(
                    final(self),
                    old(self),
                ),
                MiniBufferAction::Cancel => r == MiniBufferSignal::Cancelled
                    && final(self).input@.len() == 0 && final(self).position == 0
                    && final(self).history.view() == old(self).history.view()
                    && final(self).history.position is None && final(self).completions@.len() == 0
                    && final(self).last_completion is None,
                MiniBufferAction::Finish => r == MiniBufferSignal::Finished && final(self).input
                    == old(self).input && final(self).position == old(self).position
                    && final(self).completions == old(self).completions
                    && final(self).last_completion == old(self).last_completion
                    && final(self).history.position == old(self).history.position && (if old(self).input@.len() == 0 {
                    final(self).history.view() == old(self).history.view()
                } else {
                    final(self).history.view() == hist_add(
                        old(self).history.view(),
                        old(self).query@,
                        old(self).input@,
                    )
                }),
                MiniBufferAction::Complete => final(self).history == old(self).history && completed(
                    old(self),
                    final(self),
                    r,
                ),
                MiniBufferAction::DeleteChar => r == MiniBufferSignal::Edited && (if old(self).position == old(self).input@.len() {
                    final(self).input == old(self).input
                } else {
                    final(self).input@ == old(self).input@.remove(old(self).position as int)
                }) && final(self).position == old(self).position && unchanged_aside(
                    final(self),
                    old(self),
                ),
                MiniBufferAction::BackwardDeleteChar => r == MiniBufferSignal::Edited && (if old(self).position == 0 {
                    final(self).input == old(self).input && final(self).position == 0
                } else {
                    final(self).input@ == old(self).input@.remove(old(self).position - 1)
                        && final(self).position == old(self).position - 1
                }) && unchanged_aside(final(self), old(self)),
                MiniBufferAction::CursorLeft => r == MiniBufferSignal::Edited && final(self).input
                    == old(self).input && final(self).position == (if old(self).position == 0 {
                    0
                } else {
                    old(self).position - 1
                }) && unchanged_aside(final(self), old(self)),
                MiniBufferAction::CursorRight => r == MiniBufferSignal::Edited && final(self).input
                    == old(self).input && final(self).position == (if old(self).position == old(self).input@.len() {
                    old(self).position as int
                } else {
                    old(self).position + 1
                }) && unchanged_aside(final(self), old(self)),
                MiniBufferAction::HistoryUp => r == MiniBufferSignal::Edited && final(self).history.view() == old(self).history.view() && final(self).completions == old(self).completions && match hist_get(old(self).history.view(), old(self).query@) {
                    Some(ls) if ls.len() > 0 => {
                        let p: int = match old(self).history.position {
                            Some(p) if p != 0 => p - 1,
                            _ => ls.len() - 1,
                        };
                        final(self).input@ == ls[p] && final(self).position == ls[p].len()
                    },
                    _ => final(self).input == old(self).input && final(self).position == old(self).position,
                },
                MiniBufferAction::HistoryDown => r == MiniBufferSignal::Edited && final(self).history.view() == old(self).history.view() && final(self).completions == old(self).completions && match hist_get(old(self).history.view(), old(self).query@) {
                    Some(ls) if ls.len() > 0 => {
                        let p: int = match old(self).history.position {
                            Some(p) if p != ls.len() => p as int,
                            _ => 0,
                        };
                        final(self).input@ == ls[p] && final(self).position == ls[p].len()
                    },
                    _ => final(self).input == old(self).input && final(self).position == old(self).position,
                },
                MiniBufferAction::ClearLine => r == MiniBufferSignal::Edited
                    && final(self).input@.len() == 0 && final(self).position == 0
                    && unchanged_aside(final(self), old(self)),
                MiniBufferAction::DeleteWord => r == MiniBufferSignal::Edited && {
                    let k = word_start(old(self).input@.take(old(self).position as int));
                    &&& final(self).input@ == old(self).input@.take(k) + old(self).input@.skip(
                        old(self).position as int,
                    )
                    &&& final(self).position == k
                } && unchanged_aside(final(self), old(self)),
                MiniBufferAction::CursorToStart => r == MiniBufferSignal::Edited && final(self).input == old(self).input && final(self).position == 0 && unchanged_aside(
                    final(self),
                    old(self),
                ),
                MiniBufferAction::CursorToEnd => r == MiniBufferSignal::Edited && final(self).input
                    == old(self).input && final(self).position == old(self).input@.len()
                    && unchanged_aside(final(self), old(self)),
            },
    {
        match action {
            MiniBufferAction::InsertChar(c) => {
                self.input.insert(self.position, *c);
                self.position = self.position + 1;
                MiniBufferSignal::Edited
            },
            MiniBufferAction::InsertTab(n) => {
                let mut ins: Vec<char> = Vec::new();
                ins.push('$');
                push_decimal(&mut ins, *n - 1);
                let pos = self.position;
                let mut line = sub_chars(&self.input, 0, pos);
                append_chars(&mut line, &ins);
                let rest = sub_chars(&self.input, pos, self.input.len());
                append_chars(&mut line, &rest);
                assert(line@ =~= old(self).input@.take(pos as int) + ins@ + old(self).input@.skip(
                    pos as int,
                ));
                proof {
                    lemma_decimal_nonempty((*n - 1) as nat);
                }
                self.input = line;
                self.position = pos + 2;
                MiniBufferSignal::Edited
            },
            MiniBufferAction::Cancel => {
                self.clear();
                MiniBufferSignal::Cancelled
            },
            MiniBufferAction::Finish => {
                if self.input.len() > 0 {
                    let line = self.input_text();
                    let ghost h0 = self.history.view();
                    proof {
                        lemma_get_after_add(h0, self.query@, line@, self.query@);
                    }
                    self.history.add(self.query.as_str(), line.as_str());
                }
                MiniBufferSignal::Finished
            },
            MiniBufferAction::Complete => self.complete(),
            MiniBufferAction::DeleteChar => {
                if self.position != self.input.len() {
                    self.input.remove(self.position);
                }
                MiniBufferSignal::Edited
            },
            MiniBufferAction::BackwardDeleteChar => {
                if self.position != 0 {
                    self.input.remove(self.position - 1);
                    self.position = self.position - 1;
                }
                MiniBufferSignal::Edited
            },
            MiniBufferAction::CursorLeft => {
                if self.position != 0 {
                    self.position = self.position - 1;
                }
                MiniBufferSignal::Edited
            },
            MiniBufferAction::CursorRight => {
                if self.position != self.input.len() {
                    self.position = self.position + 1;
                }
                MiniBufferSignal::Edited
            },
            MiniBufferAction::HistoryUp => {
                self.history_up();
                MiniBufferSignal::Edited
            },
            MiniBufferAction::HistoryDown => {
                self.history_down();
                MiniBufferSignal::Edited
            },
            MiniBufferAction::ClearLine => {
                self.clear_line();
                MiniBufferSignal::Edited
            },
            MiniBufferAction::DeleteWord => {
                self.delete_word();
                MiniBufferSignal::Edited
            },
            MiniBufferAction::CursorToStart => {
                self.position = 0;
                MiniBufferSignal::Edited
            },
            MiniBufferAction::CursorToEnd => {
                self.position = self.input.len();
                MiniBufferSignal::Edited
            },
        }
    }

    /// Carries out an action as a key does: where the prompt runs on and
    /// the line changed, the changed line is handed on.
    pub fn on_action(&mut self, action: &MiniBufferAction) -> (r: MiniBufferSignal)
        requires
            old(self).wf(),
            old(self).cursor_ok(),
            *action matches MiniBufferAction::InsertTab(n) ==> n >= 1,
            old(self).input@.len() + 2 <= usize::MAX,
            old(self).completions@.len() > 0 ==> old(self).position
                + old(self).completions@.last()@.len() <= usize::MAX,
        ensures
            final(self).wf(),
            final(self).query == old(self).query,
            final(self).continuous == old(self).continuous,
            r is Cancelled <==> *action == MiniBufferAction::Cancel,
            r is Finished <==> *action == MiniBufferAction::Finish,
            r matches MiniBufferSignal::Updated(s) ==> s@ == final(self).input@,
            r is Updated <==> (old(self).continuous && *action != MiniBufferAction::Cancel
                && *action != MiniBufferAction::Finish && !(r is Lookup) && final(self).input@
                != old(self).input@),
    {
        let prev = self.input.clone();
        let r = self.do_action(action);
        match r {
            MiniBufferSignal::Edited => {
                if self.continuous && !chars_eq(&prev, &self.input) {
                    MiniBufferSignal::Updated(self.input_text())
                } else {
                    MiniBufferSignal::Edited
                }
            },
            other => other,
        }
    }

    /// The prompt as drawn: at its place, the row cleared, then the query
    /// in the header's colors, `": "` and the line.
    pub fn get_drawlist(&self) -> (r: String)
        requires
            !(self.coordinates.position.0.0 == 0 && self.coordinates.position.0.1 == 0),
        ensures
            r@ == goto_code(self.coordinates.position.0.0, self.coordinates.position.0.1)
                + "\x1b[2K"@ + fg_code(7) + bg_code(4) + self.query@ + ": "@ + self.input@,
    {
        let (xpos, ypos) = self.coordinates.position.0;
        let mut out = concat(goto_xy(xpos, ypos), clear_line_sequence());
        out = concat(out, header_color());
        out = concat(out, self.query.clone());
        out = concat(out, String::from_str(": "));
        out = concat(out, self.input_text());
        out
    }

    /// The column where the cursor is drawn: after the query, `": "` and
    /// the line up to the cursor, the query counted in display columns;
    /// `None` where that sum would not fit in a `usize`.
    pub fn cursor_column(&self) -> (r: Option<usize>)
        ensures
            display_width(self.query@) + 2 + self.position <= usize::MAX ==> r == Some(
                (display_width(self.query@) + 2 + self.position) as usize,
            ),
            display_width(self.query@) + 2 + self.position > usize::MAX ==> r is None,
    {
        let w = str_width(self.query.as_str());
        match w.checked_add(2) {
            Some(a) => a.checked_add(self.position),
            None => None,
        }
    }
}

/// What completing did, from `a` to `b`: after a space, `$s` is added;
/// with completions left, the one shown (each copy at the end of the line)
/// gives way to the next and the cursor moves back by the one and on by the
/// other; else the word before is to be looked up and nothing changes.
pub open spec fn completed(a: &MiniBuffer, b: &MiniBuffer, r: MiniBufferSignal) -> bool {
    if a.input@.len() > 0 && a.input@.last() == ' ' {
        &&& r == MiniBufferSignal::Edited
        &&& b.input@ == a.input@ + seq!['$', 's']
        &&& b.position == a.position + 2
        &&& b.completions == a.completions
        &&& b.last_completion == a.last_completion
    } else if a.completions@.len() > 0 {
        let last = a.last_completion->0@;
        let next = a.completions@.last();
        let back: int = if a.position >= last.len() {
            a.position - last.len()
        } else {
            0
        };
        &&& r == MiniBufferSignal::Edited
        &&& b.input@ == trim_suffixes(a.input@, last) + next@
        &&& b.position == back + next@.len()
        &&& b.completions@ == a.completions@.drop_last()
        &&& b.last_completion == Some(next)
    } else {
        &&& (r matches MiniBufferSignal::Lookup(w) && w@ == last_word(a.input@))
        &&& b.input == a.input
        &&& b.position == a.position
        &&& b.completions == a.completions
        &&& b.last_completion == a.last_completion
    }
}

/// The place reached in `h` lies in the lines of `kind`.
pub open spec fn place_ok(h: &History, kind: Seq<char>) -> bool {
    match h.position {
        None => true,
        Some(p) => match hist_get(h.view(), kind) {
            Some(ls) => p <= ls.len(),
            None => false,
        },
    }
}

/// Nothing but the line and the cursor changed.
pub open spec fn unchanged_aside(a: &MiniBuffer, b: &MiniBuffer) -> bool {
    &&& a.history == b.history
    &&& a.completions == b.completions
    &&& a.last_completion == b.last_completion
}

proof fn lemma_decimal_nonempty(n: nat)
    ensures
        decimal(n).len() >= 1,
    decreases n,
{
    if n >= 10 {
        lemma_decimal_nonempty(n / 10);
    }
}

fn append_chars(out: &mut Vec<char>, s: &Vec<char>)
    ensures
        final(out)@ == old(out)@ + s@,
{
    append(out, s)
}

/// `s` without the copies of `p` at its end.
fn trim_suffix_chars(s: &Vec<char>, p: &Vec<char>) -> (r: Vec<char>)
    ensures
        r@ == trim_suffixes(s@, p@),
{
    let mut end = s.len();
    assert(s@.take(end as int) =~= s@);
    while p.len() > 0 && p.len() <= end && ends_with_at(s, end, p)
        invariant
            end <= s@.len(),
            trim_suffixes(s@, p@) == trim_suffixes(s@.take(end as int), p@),
        decreases end,
    {
        proof {
            let t = s@.take(end as int);
            assert(t.skip(t.len() - p@.len()) =~= s@.subrange(end - p@.len(), end as int));
            assert(t.take(t.len() - p@.len()) =~= s@.take(end - p@.len()));
        }
        end = end - p.len();
    }
    proof {
        let t = s@.take(end as int);
        if p@.len() > 0 && p@.len() <= end {
            assert(t.skip(t.len() - p@.len()) =~= s@.subrange(end - p@.len(), end as int));
        }
    }
    sub_chars(s, 0, end)
}

/// Whether `p` stands in `s` just before `end`.
fn ends_with_at(s: &Vec<char>, end: usize, p: &Vec<char>) -> (r: bool)
    requires
        p@.len() <= end <= s@.len(),
    ensures
        r == (s@.subrange(end - p@.len(), end as int) == p@),
{
    let start = end - p.len();
    let mut i: usize = 0;
    while i < p.len()
        invariant
            start + p@.len() == end <= s@.len(),
            i <= p@.len(),
            forall|k: int| 0 <= k < i ==> s@[start + k] == p@[k],
        decreases p.len() - i,
    {
        if s[start + i] != p[i] {
            assert(s@.subrange(start as int, end as int)[i as int] != p@[i as int]);
            return false;
        }
        i += 1;
    }
    assert(s@.subrange(start as int, end as int) =~= p@);
    true
}

/// The word being completed, as `last_word` says.
fn last_word_chars(s: &Vec<char>) -> (r: Vec<char>)
    ensures
        r@ == last_word(s@),
{
    proof {
        lemma_rfind_props(s@, ' ');
    }
    match rfind_chars(s, ' ') {
        Some(i) => {
            let n = s.len();
            assert(i < n);
            sub_chars(s, i + 1, n)
        },
        None => {
            assert(s@.subrange(0, s@.len() as int) =~= s@);
            sub_chars(s, 0, s.len())
        },
    }
}

proof fn lemma_last_word_suffix(s: Seq<char>)
    ensures
        last_word(s).len() <= s.len(),
        s.take(s.len() - last_word(s).len()) + last_word(s) =~= s,
{
    lemma_rfind_props(s, ' ');
}

/// Deleting a word at the end of a word (the text before the cursor ends
/// in neither a blank nor a `/`) keeps the text up to and including the
/// last `/` or space, whichever comes later: what goes holds neither, and
/// what stays is empty or ends in one of them. Where the text ends in a
/// `/`, just that `/` goes.
pub proof fn lemma_delete_word_bounds(before: Seq<char>)
    requires
        before.len() > 0,
        !is_whitespace(before.last()),
    ensures
        before.last() == '/' ==> word_start(before) == before.len() - 1,
        before.last() != '/' ==> {
            &&& 0 <= word_start(before) < before.len()
            &&& forall|k: int|
                word_start(before) <= k < before.len() ==> #[trigger] before[k] != '/' && before[k] != ' '
            &&& word_start(before) == 0 || before[word_start(before) - 1] == '/' || before[word_start(
                before,
            ) - 1] == ' '
        },
{
    assert(trailing_ws(before) == 0);
    assert(trim_end(before) =~= before);
    lemma_rfind_props(before, '/');
    lemma_rfind_props(before, ' ');
}

/// Deleting a word where the text before the cursor ends in blanks takes
/// exactly those trailing blanks away: what goes is all blank, and what
/// stays is empty or ends in something else.
pub proof fn lemma_delete_word_blanks(before: Seq<char>)
    requires
        before.len() > 0,
        is_whitespace(before.last()),
    ensures
        0 <= word_start(before) < before.len(),
        forall|k: int| word_start(before) <= k < before.len() ==> is_whitespace(#[trigger] before[k]),
        word_start(before) == 0 || !is_whitespace(before[word_start(before) - 1]),
{
    lemma_trailing_blanks(before);
}

proof fn lemma_trailing_blanks(s: Seq<char>)
    ensures
        trailing_ws(s) <= s.len(),
        forall|k: int| s.len() - trailing_ws(s) <= k < s.len() ==> is_whitespace(#[trigger] s[k]),
        trailing_ws(s) < s.len() ==> !is_whitespace(s[s.len() - trailing_ws(s) - 1]),
        trim_end(s).len() == s.len() - trailing_ws(s),
    decreases s.len(),
{
    if s.len() > 0 && is_whitespace(s.last()) {
        let t = s.drop_last();
        lemma_trailing_blanks(t);
        assert forall|k: int| s.len() - trailing_ws(s) <= k < s.len() implies is_whitespace(#[trigger] s[k]) by {
            if k < s.len() - 1 {
                assert(t[k] == s[k]);
            }
        }
        if trailing_ws(s) < s.len() {
            assert(t[t.len() - trailing_ws(t) - 1] == s[s.len() - trailing_ws(s) - 1]);
        }
    }
}

/// How much of `before` deleting a word keeps, as `word_start` says.
fn word_start_of(before: &Vec<char>) -> (k: usize)
    ensures
        k == word_start(before@),
        k <= before@.len(),
{
    let t = trim_end_chars(before);
    proof {
        lemma_trailing_ws_bound(before@);
        lemma_rfind_props(before@, '/');
        lemma_rfind_props(before@, ' ');
    }
    let n = before.len();
    if t.len() != n {
        return t.len();
    }
    if n > 0 && before[n - 1] == '/' {
        return n - 1;
    }
    match (rfind_chars(before, '/'), rfind_chars(before, ' ')) {
        (Some(d), Some(w)) => if d > w {
            d + 1
        } else {
            w + 1
        },
        (Some(d), None) => d + 1,
        (None, Some(w)) => w + 1,
        (None, None) => 0,
    }
}


/// The lines of one kind as the history file holds them: `kind:line`.
pub open spec fn kind_entries(kind: Seq<char>, ls: Seq<Seq<char>>) -> Seq<Seq<char>> {
    ls.map_values(|l: Seq<char>| kind + seq![':'] + l)
}

/// All lines of the history file, kind by kind.
pub open spec fn history_entries(h: HistoryView) -> Seq<Seq<char>>
    decreases h.len(),
{
    if h.len() == 0 {
        Seq::empty()
    } else {
        history_entries(h.drop_last()) + kind_entries(h.last().0, h.last().1)
    }
}

/// Whether a history can be written to the file and read back: no kind
/// occurs twice or holds `:` or a newline, every kind has lines, and no
/// line holds a newline or ends with a carriage return.
pub open spec fn storable(h: HistoryView) -> bool {
    &&& kinds_unique(h)
    &&& forall|i: int| 0 <= i < h.len() ==> {
        &&& !(#[trigger] h[i]).0.contains(':')
        &&& !h[i].0.contains('\n')
        &&& h[i].1.len() > 0
        &&& forall|j: int| 0 <= j < h[i].1.len() ==> plain_line(#[trigger] h[i].1[j])
    }
}

proof fn lemma_joined_append(a: Seq<Seq<char>>, b: Seq<Seq<char>>)
    ensures
        joined_lines(a + b) == joined_lines(a) + joined_lines(b),
    decreases b.len(),
{
    if b.len() == 0 {
        assert(a + b =~= a);
        assert(joined_lines(a) + joined_lines(b) =~= joined_lines(a));
    } else {
        lemma_joined_append(a, b.drop_last());
        assert((a + b).drop_last() =~= a + b.drop_last());
        assert((a + b).last() == b.last());
        assert(joined_lines(a + b) =~= joined_lines(a) + joined_lines(b));
    }
}

proof fn lemma_kind_text(kind: Seq<char>, ls: Seq<Seq<char>>)
    ensures
        kind_text(kind, ls) == joined_lines(kind_entries(kind, ls)),
    decreases ls.len(),
{
    if ls.len() > 0 {
        lemma_kind_text(kind, ls.drop_last());
        assert(kind_entries(kind, ls).drop_last() =~= kind_entries(kind, ls.drop_last()));
        assert(kind_text(kind, ls) =~= joined_lines(kind_entries(kind, ls)));
    } else {
        assert(kind_entries(kind, ls) =~= Seq::<Seq<char>>::empty());
    }
}

proof fn lemma_history_text(h: HistoryView)
    ensures
        history_text(h) == joined_lines(history_entries(h)),
    decreases h.len(),
{
    if h.len() > 0 {
        lemma_history_text(h.drop_last());
        lemma_kind_text(h.last().0, h.last().1);
        lemma_joined_append(history_entries(h.drop_last()), kind_entries(h.last().0, h.last().1));
    }
}

proof fn lemma_find_after(k: Seq<char>, rest: Seq<char>)
    requires
        !k.contains(':'),
    ensures
        find(k + seq![':'] + rest, ':') == Some(k.len() as int),
    decreases k.len(),
{
    let s = k + seq![':'] + rest;
    if k.len() > 0 {
        assert(k[0] != ':') by {
            if k[0] == ':' {
                assert(k.contains(':'));
            }
        }
        let k2 = k.drop_first();
        assert(!k2.contains(':')) by {
            if k2.contains(':') {
                let j = choose|j: int| 0 <= j < k2.len() && k2[j] == ':';
                assert(k[j + 1] == ':');
            }
        }
        lemma_find_after(k2, rest);
        assert(s.drop_first() =~= k2 + seq![':'] + rest);
        assert(s[0] == k[0]);
    } else {
        assert(s[0] == ':');
    }
}

proof fn lemma_split_entry(k: Seq<char>, l: Seq<char>)
    requires
        !k.contains(':'),
    ensures
        split_entry(k + seq![':'] + l) == Some((k, l)),
{
    lemma_find_after(k, l);
    let s = k + seq![':'] + l;
    assert(s.take(k.len() as int) =~= k);
    assert(s.skip(k.len() as int + 1) =~= l);
}

proof fn lemma_parse_kind(a: Seq<Seq<char>>, kind: Seq<char>, ls: Seq<Seq<char>>)
    requires
        !kind.contains(':'),
        ls.len() > 0,
        forall|j: int| 0 <= j < parse_history(a).len() ==> (#[trigger] parse_history(a)[j]).0 != kind,
    ensures
        parse_history(a + kind_entries(kind, ls)) == parse_history(a).push((kind, ls)),
    decreases ls.len(),
{
    let e = a + kind_entries(kind, ls);
    let l = ls.last();
    lemma_split_entry(kind, l);
    assert(e.last() == kind + seq![':'] + l);
    if ls.len() == 1 {
        assert(e.drop_last() =~= a);
        lemma_hist_add_new(parse_history(a), kind, l);
        assert(seq![l] =~= ls);
    } else {
        let init = ls.drop_last();
        lemma_parse_kind(a, kind, init);
        assert(e.drop_last() =~= a + kind_entries(kind, init));
        let h = parse_history(a).push((kind, init));
        let i = parse_history(a).len() as int;
        assert forall|j: int| 0 <= j < i implies h[j].0 != kind by {
            assert(h[j] == parse_history(a)[j]);
        }
        lemma_hist_add_at(h, i, kind, l);
        assert(h[i] == (kind, init));
        assert(init.push(l) =~= ls);
        assert(h.update(i, (kind, ls)) =~= parse_history(a).push((kind, ls)));
    }
}

proof fn lemma_parse_entries(h: HistoryView)
    requires
        storable(h),
    ensures
        parse_history(history_entries(h)) == h,
    decreases h.len(),
{
    if h.len() == 0 {
        assert(parse_history(history_entries(h)) =~= h);
    } else {
        let init = h.drop_last();
        assert(storable(init)) by {
            assert forall|i: int| 0 <= i < init.len() implies {
                &&& !(#[trigger] init[i]).0.contains(':')
                &&& !init[i].0.contains('\n')
                &&& init[i].1.len() > 0
                &&& forall|j: int| 0 <= j < init[i].1.len() ==> plain_line(#[trigger] init[i].1[j])
            } by {
                assert(init[i] == h[i]);
            }
        }
        lemma_parse_entries(init);
        let last = h.last();
        assert(last == h[h.len() - 1]);
        assert forall|j: int| 0 <= j < init.len() implies (#[trigger] init[j]).0 != last.0 by {
            assert(init[j] == h[j]);
        }
        lemma_parse_kind(history_entries(init), last.0, last.1);
        assert(init.push(last) =~= h);
    }
}

proof fn lemma_entries_plain(h: HistoryView)
    requires
        storable(h),
    ensures
        forall|i: int| 0 <= i < history_entries(h).len() ==> plain_line(#[trigger] history_entries(h)[i]),
    decreases h.len(),
{
    if h.len() > 0 {
        let init = h.drop_last();
        assert(storable(init)) by {
            assert forall|i: int| 0 <= i < init.len() implies {
                &&& !(#[trigger] init[i]).0.contains(':')
                &&& !init[i].0.contains('\n')
                &&& init[i].1.len() > 0
                &&& forall|j: int| 0 <= j < init[i].1.len() ==> plain_line(#[trigger] init[i].1[j])
            } by {
                assert(init[i] == h[i]);
            }
        }
        lemma_entries_plain(init);
        let k = h.last().0;
        let ls = h.last().1;
        assert(h.last() == h[h.len() - 1]);
        let es = history_entries(h);
        let a = history_entries(init);
        assert forall|i: int| 0 <= i < es.len() implies plain_line(#[trigger] es[i]) by {
            if i < a.len() {
                assert(es[i] == a[i]);
            } else {
                let j = i - a.len();
                let l = ls[j];
                assert(plain_line(l));
                let e = k + seq![':'] + l;
                assert(es[i] == e);
                assert(!e.contains('\n')) by {
                    if e.contains('\n') {
                        let m = choose|m: int| 0 <= m < e.len() && e[m] == '\n';
                        if m < k.len() {
                            assert(k[m] == '\n');
                        } else if m > k.len() {
                            assert(l[m - k.len() - 1] == '\n');
                        }
                    }
                }
                if l.len() > 0 {
                    assert(e.last() == l.last());
                } else {
                    assert(e.last() == ':');
                }
            }
        }
    }
}

/// What the history writes to its file is read back as the same history,
/// for every history that can be stored (see `storable`).
pub proof fn lemma_history_round_trip(h: HistoryView)
    requires
        storable(h),
    ensures
        parse_history(lines(history_text(h))) == h,
{
    lemma_history_text(h);
    lemma_entries_plain(h);
    lemma_lines_of_joined(history_entries(h));
    lemma_parse_entries(h);
}

} // verus!
