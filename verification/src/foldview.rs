//! Folds: entries shown as one line of description when folded, or as all
//! the lines of their content when unfolded, in a scrolling list; the log of
//! messages is such a list.
use vstd::prelude::*;
use crate::listview::{offset_for, ListView, Listable};
use crate::term::{color_green, color_red, normal_color, fg_code};
use crate::text::{chars_of, chars_to_string, lines, lines_chars, str_to_chars};

verus! {

/// An entry that folds to one line of description and unfolds to its content.
pub trait Foldable {
    spec fn description_spec(&self) -> Seq<char>;

    spec fn content_spec(&self) -> Option<Seq<char>>;

    /// The number of lines the entry takes as it is now.
    spec fn lines_spec(&self) -> nat;

    spec fn folded_spec(&self) -> bool;

    fn description(&self) -> (r: &str)
        ensures
            r@ == self.description_spec(),
    ;

    fn content(&self) -> (r: Option<&String>)
        ensures
            match r {
                Some(s) => self.content_spec() == Some(s@),
                None => self.content_spec() is None,
            },
    ;

    fn lines(&self) -> (r: usize)
        ensures
            r == self.lines_spec(),
    ;

    fn toggle_fold(&mut self)
        ensures
            final(self).folded_spec() == !old(self).folded_spec(),
            final(self).description_spec() == old(self).description_spec(),
            final(self).content_spec() == old(self).content_spec(),
    ;

    fn is_folded(&self) -> (r: bool)
        ensures
            r == self.folded_spec(),
    ;

    /// The content when unfolded and there is some, else the description.
    fn text(&self) -> (r: &str)
        ensures
            r@ == if !self.folded_spec() && self.content_spec() is Some {
                self.content_spec()->0
            } else {
                self.description_spec()
            },
    {
        if !self.is_folded() {
            match self.content() {
                Some(c) => {
                    return c.as_str();
                },
                None => {},
            }
        }
        self.description()
    }

    fn render_description(&self) -> (r: String)
        ensures
            r@ == self.description_spec(),
    {
        String::from_str(self.description())
    }

    /// The lines of the content, or the description where there is no content.
    fn render_content(&self) -> (r: Vec<String>)
        ensures
            strings_of(r@) == match self.content_spec() {
                Some(c) => lines(c),
                None => seq![self.description_spec()],
            },
    {
        match self.content() {
            Some(content) => split_lines(content.as_str()),
            None => {
                let mut v: Vec<String> = Vec::new();
                v.push(self.render_description());
                assert(strings_of(v@) =~= seq![self.description_spec()]);
                v
            },
        }
    }

    /// The lines the entry shows: its description when folded, else its content.
    fn render(&self) -> (r: Vec<String>)
        ensures
            strings_of(r@) == if self.folded_spec() {
                seq![self.description_spec()]
            } else {
                match self.content_spec() {
                    Some(c) => lines(c),
                    None => seq![self.description_spec()],
                }
            },
    {
        if self.is_folded() {
            let mut v: Vec<String> = Vec::new();
            v.push(self.render_description());
            assert(strings_of(v@) =~= seq![self.description_spec()]);
            v
        } else {
            self.render_content()
        }
    }
}

pub open spec fn strings_of(v: Seq<String>) -> Seq<Seq<char>> {
    v.map_values(|s: String| s@)
}

/// The lines of `s` as strings.
pub fn split_lines(s: &str) -> (r: Vec<String>)
    ensures
        strings_of(r@) == lines(s@),
{
    let cs = str_to_chars(s);
    let ls = lines_chars(&cs);
    let mut r: Vec<String> = Vec::new();
    let mut i: usize = 0;
    while i < ls.len()
        invariant
            i <= ls@.len(),
            chars_of(ls@) == lines(s@),
            strings_of(r@) == chars_of(ls@).take(i as int),
        decreases ls.len() - i,
    {
        let ghost prev = strings_of(r@);
        r.push(chars_to_string(&ls[i]));
        assert(strings_of(r@) =~= prev.push(ls@[i as int]@));
        assert(chars_of(ls@).take(i + 1) =~= chars_of(ls@).take(i as int).push(ls@[i as int]@));
        i += 1;
    }
    assert(chars_of(ls@).take(i as int) =~= chars_of(ls@));
    r
}

/// One logged message.
#[derive(Debug)]
pub struct LogEntry {
    pub description: String,
    pub content: Option<String>,
    pub lines: usize,
    pub folded: bool,
}

impl Foldable for LogEntry {
    open spec fn description_spec(&self) -> Seq<char> {
        self.description@
    }

    open spec fn content_spec(&self) -> Option<Seq<char>> {
        match self.content {
            Some(c) => Some(c@),
            None => None,
        }
    }

    open spec fn lines_spec(&self) -> nat {
        if self.folded {
            1
        } else {
            self.lines as nat
        }
    }

    open spec fn folded_spec(&self) -> bool {
        self.folded
    }

    fn description(&self) -> (r: &str) {
        self.description.as_str()
    }

    fn content(&self) -> (r: Option<&String>) {
        self.content.as_ref()
    }

    fn lines(&self) -> (r: usize) {
        if self.is_folded() {
            1
        } else {
            self.lines
        }
    }

    fn toggle_fold(&mut self) {
        self.folded = !self.folded;
    }

    fn is_folded(&self) -> (r: bool) {
        self.folded
    }
}

/// The first line of a logged message: the time in green, then the message
/// in the normal color for plain log lines and in red for errors.
pub open spec fn log_header(time: Seq<char>, is_log: bool, message: Seq<char>) -> Seq<char> {
    fg_code(2) + time + (if is_log {
        fg_code(7)
    } else {
        fg_code(1)
    }) + ": "@ + message
}

/// The full text of a logged message: the header, then the cause and the
/// backtrace where there are some, each ended by a newline.
pub open spec fn log_content(
    time: Seq<char>,
    is_log: bool,
    message: Seq<char>,
    cause: Option<Seq<char>>,
    backtrace: Option<Seq<char>>,
) -> Seq<char> {
    log_header(time, is_log, message) + "\n"@ + match cause {
        Some(c) => c + "\n"@,
        None => Seq::empty(),
    } + match backtrace {
        Some(b) => b + "\n"@,
        None => Seq::empty(),
    }
}

/// The first line of a text, or nothing where it has no line.
pub open spec fn first_line(s: Seq<char>) -> Seq<char> {
    if lines(s).len() > 0 {
        lines(s)[0]
    } else {
        Seq::empty()
    }
}

fn push_str(out: &mut Vec<char>, s: &str)
    ensures
        final(out)@ == old(out)@ + s@,
{
    let cs = str_to_chars(s);
    let mut i: usize = 0;
    while i < cs.len()
        invariant
            i <= cs@.len(),
            out@ == old(out)@ + cs@.take(i as int),
        decreases cs.len() - i,
    {
        out.push(cs[i]);
        i += 1;
        assert(out@ =~= old(out)@ + cs@.take(i as int));
    }
    assert(cs@.take(i as int) =~= cs@);
}

impl LogEntry {
    /// A folded log entry for a message logged at `time` (a plain log line
    /// when `is_log`, else an error), with the error's cause and backtrace
    /// where there are some.
    pub fn from_message(
        time: &str,
        is_log: bool,
        message: &str,
        cause: Option<&str>,
        backtrace: Option<&str>,
    ) -> (r: LogEntry)
        ensures
            r.description@ == first_line(log_header(time@, is_log, message@)),
            r.content matches Some(c) && c@ == log_content(
                time@,
                is_log,
                message@,
                match cause {
                    Some(c) => Some(c@),
                    None => None,
                },
                match backtrace {
                    Some(b) => Some(b@),
                    None => None,
                },
            ),
            r.lines == lines(r.content->0@).len(),
            r.folded,
    {
        let mut header: Vec<char> = Vec::new();
        let green = color_green();
        push_str(&mut header, green.as_str());
        push_str(&mut header, time);
        let logcolor = if is_log {
            normal_color()
        } else {
            color_red()
        };
        push_str(&mut header, logcolor.as_str());
        push_str(&mut header, ": ");
        push_str(&mut header, message);
        proof {
            reveal_strlit(": ");
        }
        assert(header@ =~= log_header(time@, is_log, message@));
        let header_lines = lines_chars(&header);
        let description = if header_lines.len() > 0 {
            chars_to_string(&header_lines[0])
        } else {
            String::new()
        };
        let mut content = header;
        push_str(&mut content, "\n");
        match cause {
            Some(c) => {
                push_str(&mut content, c);
                push_str(&mut content, "\n");
            },
            None => {},
        }
        match backtrace {
            Some(b) => {
                push_str(&mut content, b);
                push_str(&mut content, "\n");
            },
            None => {},
        }
        let ghost want = log_content(
            time@,
            is_log,
            message@,
            match cause {
                Some(c) => Some(c@),
                None => None,
            },
            match backtrace {
                Some(b) => Some(b@),
                None => None,
            },
        );
        assert(content@ =~= want);
        let content_lines = lines_chars(&content);
        let n = content_lines.len();
        LogEntry {
            description,
            content: Some(chars_to_string(&content)),
            lines: n,
            folded: true,
        }
    }
}

/// The lines each entry takes.
pub open spec fn fold_lines<F: Foldable>(v: Seq<F>) -> Seq<nat> {
    v.map_values(|f: F| f.lines_spec())
}

pub open spec fn sum_nat(s: Seq<nat>) -> nat
    decreases s.len(),
{
    if s.len() == 0 {
        0
    } else {
        sum_nat(s.drop_last()) + s.last()
    }
}

/// The entry that holds line `pos` when the entries take `ls` lines each,
/// counted from entry `i` on whose first line is `start`.
pub open spec fn fold_at(ls: Seq<nat>, pos: int) -> Option<int>
    decreases ls.len(),
{
    if ls.len() == 0 {
        None
    } else if pos < ls[0] {
        Some(0)
    } else {
        match fold_at(ls.drop_first(), pos - ls[0]) {
            Some(i) => Some(i + 1),
            None => None,
        }
    }
}

proof fn lemma_sum_take_step(ls: Seq<nat>, i: int)
    requires
        0 <= i < ls.len(),
    ensures
        sum_nat(ls.take(i + 1)) == sum_nat(ls.take(i)) + ls[i],
{
    assert(ls.take(i + 1).drop_last() =~= ls.take(i));
}

proof fn lemma_sum_prefix_le(ls: Seq<nat>, i: int)
    requires
        0 <= i <= ls.len(),
    ensures
        sum_nat(ls.take(i)) <= sum_nat(ls),
    decreases ls.len() - i,
{
    if i < ls.len() {
        lemma_sum_prefix_le(ls, i + 1);
        lemma_sum_take_step(ls, i);
    } else {
        assert(ls.take(i) =~= ls);
    }
}

/// `fold_at` read from entry `i` on, with the lines before it taken out.
proof fn lemma_fold_at_from(ls: Seq<nat>, i: int, pos: int)
    requires
        0 <= i <= ls.len(),
        pos >= sum_nat(ls.take(i)),
    ensures
        fold_at(ls, pos) == match fold_at(ls.skip(i), pos - sum_nat(ls.take(i))) {
            Some(k) => Some(k + i),
            None => None::<int>,
        },
    decreases i,
{
    if i > 0 {
        lemma_sum_take_step(ls, 0);
        assert(ls.take(0) =~= Seq::<nat>::empty());
        let rest = ls.drop_first();
        assert forall|k: int| 0 <= k <= i - 1 implies sum_nat(rest.take(k)) + ls[0] == sum_nat(
            ls.take(k + 1),
        ) by {
            lemma_sum_shift(ls, k);
        }
        assert(rest.skip(i - 1) =~= ls.skip(i));
        lemma_fold_at_from(rest, i - 1, pos - ls[0]);
    } else {
        assert(ls.skip(0) =~= ls);
        assert(ls.take(0) =~= Seq::<nat>::empty());
    }
}

proof fn lemma_sum_shift(ls: Seq<nat>, k: int)
    requires
        0 <= k < ls.len(),
    ensures
        sum_nat(ls.drop_first().take(k)) + ls[0] == sum_nat(ls.take(k + 1)),
    decreases k,
{
    if k > 0 {
        lemma_sum_shift(ls, k - 1);
        lemma_sum_take_step(ls, k);
        lemma_sum_take_step(ls.drop_first(), k - 1);
    } else {
        assert(ls.take(1) =~= seq![ls[0]]);
        assert(seq![ls[0]].drop_last() =~= Seq::<nat>::empty());
        assert(ls.drop_first().take(0) =~= Seq::<nat>::empty());
    }
}

/// The saturated number of lines: what `len` reports for a list of folds.
pub open spec fn capped(n: nat) -> nat {
    if n <= usize::MAX {
        n
    } else {
        usize::MAX as nat
    }
}

impl<F: Foldable> Listable for Vec<F> {
    /// The lines of all entries (at most `usize::MAX`).
    open spec fn len_spec(&self) -> nat {
        capped(sum_nat(fold_lines(self@)))
    }

    fn len(&self) -> (r: usize) {
        let mut total: usize = 0;
        let mut i: usize = 0;
        let ghost ls = fold_lines(self@);
        assert(ls.take(0) =~= Seq::<nat>::empty());
        while i < self.len()
            invariant
                i <= self@.len(),
                ls == fold_lines(self@),
                total == capped(sum_nat(ls.take(i as int))),
            decreases self.len() - i,
        {
            let l = self[i].lines();
            proof {
                lemma_sum_take_step(ls, i as int);
            }
            total = total.saturating_add(l);
            i += 1;
        }
        assert(ls.take(i as int) =~= ls);
        total
    }
}

/// `n`, at most `len`.
pub open spec fn clamp(n: int, len: int) -> int {
    if n <= len {
        n
    } else {
        len
    }
}

/// There is no entry at the selection.
#[derive(Clone, Copy, Debug, PartialEq, Eq, Structural)]
pub struct NoFoldError;

impl<F: Foldable> ListView<Vec<F>> {
    /// The line on which entry `fold` starts (all lines where there are
    /// fewer entries).
    pub fn fold_start_pos(&self, fold: usize) -> (r: usize)
        requires
            sum_nat(fold_lines(self.content@).take(clamp(fold as int, self.content@.len() as int)))
                <= usize::MAX,
        ensures
            r == sum_nat(
                fold_lines(self.content@).take(clamp(fold as int, self.content@.len() as int)),
            ),
    {
        let ghost ls = fold_lines(self.content@);
        let n = if fold <= self.content.len() {
            fold
        } else {
            self.content.len()
        };
        let mut pos: usize = 0;
        let mut i: usize = 0;
        assert(ls.take(0) =~= Seq::<nat>::empty());
        while i < n
            invariant
                i <= n,
                n <= self.content@.len(),
                n == clamp(fold as int, self.content@.len() as int),
                ls == fold_lines(self.content@),
                sum_nat(ls.take(n as int)) <= usize::MAX,
                pos == sum_nat(ls.take(i as int)),
            decreases n - i,
        {
            let l = self.content[i].lines();
            proof {
                lemma_sum_take_step(ls, i as int);
                lemma_sum_prefix_le(ls.take(n as int), i + 1);
                assert(ls.take(n as int).take(i + 1) =~= ls.take(i + 1));
            }
            pos = pos + l;
            i += 1;
        }
        pos
    }

    /// The entry that holds the selected line.
    pub fn current_fold(&self) -> (r: Option<usize>)
        requires
            sum_nat(fold_lines(self.content@)) <= usize::MAX,
        ensures
            match fold_at(fold_lines(self.content@), self.selection as int) {
                Some(i) => r == Some(i as usize),
                None => r is None,
            },
    {
        let pos = self.selection;
        let ghost ls = fold_lines(self.content@);
        let mut lines_before: usize = 0;
        let mut i: usize = 0;
        assert(ls.take(0) =~= Seq::<nat>::empty());
        while i < self.content.len()
            invariant
                i <= self.content@.len(),
                ls == fold_lines(self.content@),
                sum_nat(ls) <= usize::MAX,
                lines_before == sum_nat(ls.take(i as int)),
                lines_before <= pos,
                pos == self.selection,
            decreases self.content.len() - i,
        {
            let l = self.content[i].lines();
            proof {
                lemma_sum_take_step(ls, i as int);
                lemma_sum_prefix_le(ls, i + 1);
                lemma_fold_at_from(ls, i as int, pos as int);
                assert(ls.skip(i as int)[0] == ls[i as int]);
            }
            if lines_before + l > pos {
                return Some(i);
            }
            proof {
                lemma_fold_at_from(ls, i + 1, pos as int);
                assert(ls.skip(i as int).drop_first() =~= ls.skip(i + 1));
            }
            lines_before = lines_before + l;
            i += 1;
        }
        proof {
            lemma_fold_at_from(ls, i as int, pos as int);
            assert(ls.skip(i as int) =~= Seq::<nat>::empty());
        }
        None
    }

    /// Folds or unfolds the entry at the selection; on folding, the selection
    /// goes to the entry's first line.
    pub fn toggle_fold(&mut self) -> (r: Result<(), NoFoldError>)
        requires
            sum_nat(fold_lines(old(self).content@)) <= usize::MAX,
            sum_nat(fold_lines(old(self).content@)) + 1 < usize::MAX,
        ensures
            match fold_at(fold_lines(old(self).content@), old(self).selection as int) {
                None => r is Err && final(self).content@ == old(self).content@
                    && final(self).selection == old(self).selection,
                Some(i) => {
                    &&& r is Ok
                    &&& final(self).content@.len() == old(self).content@.len()
                    &&& forall|j: int|
                        0 <= j < old(self).content@.len() && j != i ==> final(self).content@[j]
                            == old(self).content@[j]
                    &&& final(self).content@[i].folded_spec() == !old(
                        self,
                    ).content@[i].folded_spec()
                    &&& final(self).content@[i].description_spec() == old(
                        self,
                    ).content@[i].description_spec()
                    &&& final(self).content@[i].content_spec() == old(
                        self,
                    ).content@[i].content_spec()
                    &&& final(self).selection == if final(self).content@[i].folded_spec() {
                        sum_nat(fold_lines(old(self).content@).take(i)) as usize
                    } else {
                        old(self).selection
                    }
                },
            },
            final(self).coordinates == old(self).coordinates,
    {
        let fold = match self.current_fold() {
            Some(f) => f,
            None => {
                return Err(NoFoldError);
            },
        };
        proof {
            lemma_fold_at_bound(fold_lines(self.content@), self.selection as int);
            lemma_sum_prefix_le(fold_lines(self.content@), fold as int);
        }
        let fold_pos = self.fold_start_pos(fold);
        let ghost before = self.content@;
        let mut entry = self.content.remove(fold);
        entry.toggle_fold();
        let folded = entry.is_folded();
        let ghost e = entry;
        self.content.insert(fold, entry);
        assert(self.content@ =~= before.update(fold as int, e));
        if folded {
            self.set_selection(fold_pos);
        }
        Ok(())
    }
}

pub proof fn lemma_fold_at_bound(ls: Seq<nat>, pos: int)
    ensures
        fold_at(ls, pos) matches Some(i) ==> 0 <= i < ls.len(),
    decreases ls.len(),
{
    if ls.len() > 0 && pos >= ls[0] {
        lemma_fold_at_bound(ls.drop_first(), pos - ls[0]);
    }
}

/// Line `pos` lies in entry `i` exactly when it is at or after the entry's
/// first line and before the next entry's: the entry that `current_fold`
/// finds holds the selection.
pub proof fn lemma_fold_at_bounds(ls: Seq<nat>, pos: int, i: int)
    requires
        pos >= 0,
        fold_at(ls, pos) == Some(i),
    ensures
        0 <= i < ls.len(),
        sum_nat(ls.take(i)) <= pos < sum_nat(ls.take(i)) + ls[i],
    decreases ls.len(),
{
    lemma_fold_at_bound(ls, pos);
    if pos < ls[0] {
        assert(ls.take(0) =~= Seq::<nat>::empty());
    } else {
        lemma_fold_at_bounds(ls.drop_first(), pos - ls[0], i - 1);
        lemma_sum_shift(ls, i - 1);
        assert(ls.drop_first()[i - 1] == ls[i]);
    }
}

/// The first line of an entry that takes at least one line belongs to it.
pub proof fn lemma_fold_start_in_fold(ls: Seq<nat>, i: int)
    requires
        0 <= i < ls.len(),
        ls[i] >= 1,
    ensures
        fold_at(ls, sum_nat(ls.take(i)) as int) == Some(i),
{
    assert(ls.take(0) =~= Seq::<nat>::empty());
    lemma_fold_at_from(ls, i, sum_nat(ls.take(i)) as int);
    assert(ls.skip(i)[0] == ls[i]);
}

} // verus!
