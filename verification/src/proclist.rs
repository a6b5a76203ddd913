//! Commands run for the user: the placeholders of a command line (`$s` for
//! the selected files, `$0s`, `$1s`, ... for those of each tab, `$0`, `$1`,
//! ... for each tab's directory) filled in with quoted paths, the shell
//! line built from it, and the texts that report on running processes.
use vstd::prelude::*;
use crate::files::{File, contains_chars, contains_seq, opt_view, path_strip_prefix, same_path};
use crate::term::{
    bg_code, cjk_excess, color_green, color_red, cursor_restore, cursor_right, cursor_save, decimal,
    display_width_cjk, fg_code, highlight_color, normal_color, pad_chars, padded, push_decimal,
    reset, right_code, sized_prefix, sized_string, status_bg, str_width_cjk,
};
use crate::text::{chars_eq, chars_to_string, split, split_chars, str_to_chars, trim_end_matches, trim_end_matches_chars};

verus! {

/// `s` with each single quote written as `'\''`, so that it can stand
/// between single quotes in a shell line.
pub open spec fn escaped(s: Seq<char>) -> Seq<char>
    decreases s.len(),
{
    if s.len() == 0 {
        Seq::empty()
    } else {
        escaped(s.drop_last()) + if s.last() == '\'' {
            seq!['\'', '\\', '\'', '\'']
        } else {
            seq![s.last()]
        }
    }
}

/// `s` between single quotes, its own single quotes escaped.
pub open spec fn quoted(s: Seq<char>) -> Seq<char> {
    seq!['\''] + escaped(s) + seq!['\'']
}

/// The path of `f` as a command line gives it: relative to `cwd` (`./` for
/// `cwd` itself, the whole path where `cwd` is no prefix of it).
pub open spec fn relative_path(f: File, cwd: File) -> Seq<char> {
    if same_path(f.path@, cwd.path@) {
        "./"@
    } else {
        match path_strip_prefix(f.path@, cwd.path@) {
            Some(p) => p,
            None => f.path@,
        }
    }
}

/// The files `fs` as words of a command line: each quoted, one space
/// between them.
pub open spec fn file_words(fs: Seq<File>, cwd: File) -> Seq<char>
    decreases fs.len(),
{
    if fs.len() == 0 {
        Seq::empty()
    } else if fs.len() == 1 {
        quoted(relative_path(fs[0], cwd))
    } else {
        file_words(fs.drop_last(), cwd) + seq![' '] + quoted(relative_path(fs.last(), cwd))
    }
}

/// The words `parts` with each that is exactly `pat` replaced by the
/// files' words, where `pat` occurs in the whole command `cmd` at all.
pub open spec fn substituted(parts: Seq<Seq<char>>, cmd: Seq<char>, pat: Seq<char>, fs: Seq<File>, cwd: File) -> Seq<Seq<char>> {
    if !contains_seq(cmd, pat) {
        parts
    } else {
        parts.map_values(|p: Seq<char>| if p == pat {
            file_words(fs, cwd)
        } else {
            p
        })
    }
}

/// The placeholder of the files of tab `i`: `$` `i` `s`.
pub open spec fn tab_files_pattern(i: nat) -> Seq<char> {
    seq!['$'] + decimal(i) + seq!['s']
}

/// The placeholder of the directory of tab `i`: `$` `i`.
pub open spec fn tab_path_pattern(i: nat) -> Seq<char> {
    seq!['$'] + decimal(i)
}

/// The words after filling in the files of the first `n` tabs.
pub open spec fn with_tab_files(parts: Seq<Seq<char>>, cmd: Seq<char>, tabs: Seq<Vec<File>>, n: nat, cwd: File) -> Seq<Seq<char>>
    decreases n,
{
    if n == 0 {
        parts
    } else {
        substituted(
            with_tab_files(parts, cmd, tabs, (n - 1) as nat, cwd),
            cmd,
            tab_files_pattern((n - 1) as nat),
            tabs[n - 1]@,
            cwd,
        )
    }
}

/// The words after filling in the directories of the first `n` tabs.
pub open spec fn with_tab_paths(parts: Seq<Seq<char>>, cmd: Seq<char>, dirs: Seq<File>, n: nat, cwd: File) -> Seq<Seq<char>>
    decreases n,
{
    if n == 0 {
        parts
    } else {
        substituted(
            with_tab_paths(parts, cmd, dirs, (n - 1) as nat, cwd),
            cmd,
            tab_path_pattern((n - 1) as nat),
            seq![dirs[n - 1]],
            cwd,
        )
    }
}

/// A command to run, and what its placeholders stand for.
#[derive(Debug)]
pub struct Cmd {
    pub cmd: String,
    pub args: Option<Vec<String>>,
    pub vars: Option<Vec<(String, String)>>,
    pub short_cmd: Option<String>,
    pub cwd: File,
    pub cwd_files: Option<Vec<File>>,
    pub tab_files: Option<Vec<Vec<File>>>,
    pub tab_paths: Option<Vec<File>>,
}

/// The words of a command whose text is `text` and whose placeholders
/// stand for what `c` holds: split at spaces, then `$s` filled in with the
/// selected files, the tabs' files and the tabs' directories.
pub open spec fn processed_text(text: Seq<char>, c: Cmd) -> Seq<Seq<char>> {
    let parts = split(text, ' ');
    let a = match c.cwd_files {
        Some(fs) => substituted(parts, text, "$s"@, fs@, c.cwd),
        None => parts,
    };
    let b = match c.tab_files {
        Some(tabs) => with_tab_files(a, text, tabs@, tabs@.len(), c.cwd),
        None => a,
    };
    match c.tab_paths {
        Some(dirs) => with_tab_paths(b, text, dirs@, dirs@.len(), c.cwd),
        None => b,
    }
}

/// The words of the command `c` (see `processed_text`).
pub open spec fn processed(c: Cmd) -> Seq<Seq<char>> {
    processed_text(c.cmd@, c)
}

fn push_chars(out: &mut Vec<char>, s: &Vec<char>)
    ensures
        final(out)@ == old(out)@ + s@,
{
    let mut i: usize = 0;
    let ghost start = out@;
    while i < s.len()
        invariant
            i <= s@.len(),
            out@ == start + s@.take(i as int),
        decreases s.len() - i,
    {
        out.push(s[i]);
        i += 1;
        assert(out@ =~= start + s@.take(i as int));
    }
    assert(s@.take(i as int) =~= s@);
}

/// `s` quoted for a shell line (see `quoted`).
fn quote(s: &str) -> (r: Vec<char>)
    ensures
        r@ == quoted(s@),
{
    let cs = str_to_chars(s);
    let mut out: Vec<char> = Vec::new();
    let mut i: usize = 0;
    assert(cs@.take(0) =~= Seq::<char>::empty());
    while i < cs.len()
        invariant
            i <= cs@.len(),
            cs@ == s@,
            out@ == escaped(cs@.take(i as int)),
        decreases cs.len() - i,
    {
        assert(cs@.take(i + 1).drop_last() =~= cs@.take(i as int));
        if cs[i] == '\'' {
            out.push('\'');
            out.push('\\');
            out.push('\'');
            out.push('\'');
        } else {
            out.push(cs[i]);
        }
        assert(out@ =~= escaped(cs@.take(i + 1)));
        i += 1;
    }
    assert(cs@.take(i as int) =~= cs@);
    let mut r: Vec<char> = Vec::new();
    r.push('\'');
    push_chars(&mut r, &out);
    r.push('\'');
    assert(r@ =~= quoted(s@));
    r
}

/// The files as words of a command line (see `file_words`).
fn words_of(files: &Vec<File>, cwd: &File) -> (r: Vec<char>)
    ensures
        r@ == file_words(files@, *cwd),
{
    let mut out: Vec<char> = Vec::new();
    let mut i: usize = 0;
    assert(files@.take(0) =~= Seq::<File>::empty());
    while i < files.len()
        invariant
            i <= files@.len(),
            out@ == file_words(files@.take(i as int), *cwd),
        decreases files.len() - i,
    {
        let rel = files[i].strip_prefix(cwd);
        let q = quote(rel.as_str());
        let ghost t = files@.take(i + 1);
        assert(t.drop_last() =~= files@.take(i as int));
        assert(t.last() == files@[i as int]);
        if i > 0 {
            out.push(' ');
        } else {
            assert(t.len() == 1 && t[0] == files@[0]);
        }
        push_chars(&mut out, &q);
        assert(out@ =~= file_words(t, *cwd));
        i += 1;
    }
    assert(files@.take(i as int) =~= files@);
    out
}

/// The words with `pat` filled in (see `substituted`).
fn substitute(parts: Vec<Vec<char>>, cmd: &Vec<char>, pat: &Vec<char>, files: &Vec<File>, cwd: &File) -> (r: Vec<Vec<char>>)
    ensures
        crate::text::chars_of(r@) == substituted(crate::text::chars_of(parts@), cmd@, pat@, files@, *cwd),
{
    if !contains_chars(cmd, pat) {
        return parts;
    }
    let words = words_of(files, cwd);
    let ghost ps = crate::text::chars_of(parts@);
    let mut r: Vec<Vec<char>> = Vec::new();
    let mut i: usize = 0;
    while i < parts.len()
        invariant
            i <= parts@.len(),
            ps == crate::text::chars_of(parts@),
            words@ == file_words(files@, *cwd),
            r@.len() == i,
            forall|k: int| 0 <= k < i ==> (#[trigger] r@[k])@ == (if ps[k] == pat@ {
                file_words(files@, *cwd)
            } else {
                ps[k]
            }),
        decreases parts.len() - i,
    {
        if chars_eq(&parts[i], pat) {
            r.push(words.clone());
        } else {
            r.push(parts[i].clone());
        }
        i += 1;
    }
    assert(crate::text::chars_of(r@) =~= substituted(ps, cmd@, pat@, files@, *cwd));
    r
}

fn tab_pattern(i: usize, files: bool) -> (r: Vec<char>)
    ensures
        files ==> r@ == tab_files_pattern(i as nat),
        !files ==> r@ == tab_path_pattern(i as nat),
{
    let mut r: Vec<char> = Vec::new();
    r.push('$');
    push_decimal(&mut r, i);
    if files {
        r.push('s');
    }
    r
}

impl Cmd {
    /// The words of the command line with its placeholders filled in (see
    /// `processed`); the files and directories are used up.
    pub fn process(&mut self) -> (r: Vec<String>)
        ensures
            r@.map_values(|s: String| s@) == processed(*old(self)),
            final(self).cwd_files is None,
            final(self).tab_files is None,
            final(self).tab_paths is None,
            final(self).cmd == old(self).cmd,
            final(self).cwd == old(self).cwd,
            final(self).args == old(self).args,
            final(self).vars == old(self).vars,
            final(self).short_cmd == old(self).short_cmd,
    {
        let cmd = str_to_chars(self.cmd.as_str());
        let mut parts = split_chars(&cmd, ' ');
        let ghost c0 = *old(self);
        match self.cwd_files.take() {
            Some(fs) => {
                let pat = str_to_chars("$s");
                proof {
                    reveal_strlit("$s");
                }
                parts = substitute(parts, &cmd, &pat, &fs, &self.cwd);
            },
            None => {},
        }
        let ghost a = crate::text::chars_of(parts@);
        match self.tab_files.take() {
            Some(tabs) => {
                let mut i: usize = 0;
                while i < tabs.len()
                    invariant
                        i <= tabs@.len(),
                        cmd@ == c0.cmd@,
                        self.cwd == c0.cwd,
                        crate::text::chars_of(parts@) == with_tab_files(a, c0.cmd@, tabs@, i as nat, c0.cwd),
                    decreases tabs.len() - i,
                {
                    let pat = tab_pattern(i, true);
                    parts = substitute(parts, &cmd, &pat, &tabs[i], &self.cwd);
                    i += 1;
                }
            },
            None => {},
        }
        let ghost b = crate::text::chars_of(parts@);
        match self.tab_paths.take() {
            Some(dirs) => {
                let mut i: usize = 0;
                while i < dirs.len()
                    invariant
                        i <= dirs@.len(),
                        cmd@ == c0.cmd@,
                        self.cwd == c0.cwd,
                        crate::text::chars_of(parts@) == with_tab_paths(b, c0.cmd@, dirs@, i as nat, c0.cwd),
                    decreases dirs.len() - i,
                {
                    let pat = tab_pattern(i, false);
                    let one = vec![dirs[i].clone_file()];
                    assert(one@ =~= seq![dirs@[i as int]]);
                    parts = substitute(parts, &cmd, &pat, &one, &self.cwd);
                    i += 1;
                }
            },
            None => {},
        }
        let mut r: Vec<String> = Vec::new();
        let mut k: usize = 0;
        while k < parts.len()
            invariant
                k <= parts@.len(),
                r@.len() == k,
                forall|j: int| 0 <= j < k ==> (#[trigger] r@[j])@ == parts@[j]@,
            decreases parts.len() - k,
        {
            r.push(chars_to_string(&parts[k]));
            k += 1;
        }
        assert(r@.map_values(|s: String| s@) =~= crate::text::chars_of(parts@));
        r
    }
}


/// `s` with every match of `from` (taken from the left, not overlapping)
/// replaced by `to`, as `str::replace` does for a pattern that is not
/// empty.
pub open spec fn replaced(s: Seq<char>, from: Seq<char>, to: Seq<char>) -> Seq<char>
    decreases s.len(),
{
    if from.len() == 0 || s.len() < from.len() {
        s
    } else if s.take(from.len() as int) == from {
        to + replaced(s.skip(from.len() as int), from, to)
    } else {
        seq![s[0]] + replaced(s.drop_first(), from, to)
    }
}

/// `s` with every match of `from` replaced by `to` (see `replaced`).
pub fn replace_all(s: &str, from: &str, to: &str) -> (r: String)
    requires
        from@.len() > 0,
    ensures
        r@ == replaced(s@, from@, to@),
{
    let cs = str_to_chars(s);
    let f = str_to_chars(from);
    let t = str_to_chars(to);
    let mut out: Vec<char> = Vec::new();
    let mut i: usize = 0;
    assert(cs@.skip(0) =~= cs@);
    while i < cs.len()
        invariant
            i <= cs@.len(),
            cs@ == s@,
            f@ == from@,
            t@ == to@,
            f@.len() > 0,
            replaced(s@, from@, to@) == out@ + replaced(cs@.skip(i as int), from@, to@),
        decreases cs.len() - i,
    {
        let ghost rest = cs@.skip(i as int);
        if cs.len() - i >= f.len() && matches_at(&cs, i, &f) {
            assert(rest.take(f@.len() as int) =~= f@);
            assert(rest.skip(f@.len() as int) =~= cs@.skip(i + f@.len()));
            push_chars(&mut out, &t);
            assert(replaced(rest, from@, to@) == to@ + replaced(rest.skip(f@.len() as int), from@, to@));
            assert(out@ + replaced(cs@.skip(i + f@.len()), from@, to@) =~= (out@.take(out@.len() - t@.len()) + to@) + replaced(cs@.skip(i + f@.len()), from@, to@));
            i = i + f.len();
        } else {
            if cs.len() - i >= f.len() {
                assert(rest.take(f@.len() as int) != f@) by {
                    assert(rest.take(f@.len() as int) =~= cs@.subrange(i as int, i + f@.len()));
                }
            }
            assert(rest.drop_first() =~= cs@.skip(i + 1));
            assert(rest[0] == cs@[i as int]);
            let ghost before = out@;
            out.push(cs[i]);
            assert(before + replaced(rest, from@, to@) =~= out@ + replaced(cs@.skip(i + 1), from@, to@));
            i = i + 1;
        }
    }
    assert(cs@.skip(i as int) =~= Seq::<char>::empty());
    chars_to_string(&out)
}

/// Whether `pat` stands in `s` at `at`.
fn matches_at(s: &Vec<char>, at: usize, pat: &Vec<char>) -> (r: bool)
    requires
        at + pat@.len() <= s@.len(),
    ensures
        r == (s@.subrange(at as int, at + pat@.len()) == pat@),
{
    let n = s.len();
    let mut j: usize = 0;
    while j < pat.len()
        invariant
            j <= pat@.len(),
            n == s@.len(),
            at + pat@.len() <= s@.len(),
            forall|m: int| 0 <= m < j ==> s@[at + m] == pat@[m],
        decreases pat.len() - j,
    {
        if s[at + j] != pat[j] {
            assert(s@.subrange(at as int, at + pat@.len())[j as int] != pat@[j as int]);
            return false;
        }
        j += 1;
    }
    assert(s@.subrange(at as int, at + pat@.len()) =~= pat@);
    true
}

/// The words `ws` joined by spaces.
pub open spec fn joined_words(ws: Seq<Seq<char>>) -> Seq<char>
    decreases ws.len(),
{
    if ws.len() == 0 {
        Seq::empty()
    } else if ws.len() == 1 {
        ws[0]
    } else {
        joined_words(ws.drop_last()) + seq![' '] + ws.last()
    }
}

fn join_words(ws: &Vec<String>) -> (r: String)
    ensures
        r@ == joined_words(ws@.map_values(|s: String| s@)),
{
    let ghost v = ws@.map_values(|s: String| s@);
    let mut out: Vec<char> = Vec::new();
    let mut i: usize = 0;
    assert(v.take(0) =~= Seq::<Seq<char>>::empty());
    while i < ws.len()
        invariant
            i <= ws@.len(),
            v == ws@.map_values(|s: String| s@),
            out@ == joined_words(v.take(i as int)),
        decreases ws.len() - i,
    {
        let w = str_to_chars(ws[i].as_str());
        let ghost t = v.take(i + 1);
        assert(t.drop_last() =~= v.take(i as int));
        assert(t.last() == ws@[i as int]@);
        if i > 0 {
            out.push(' ');
        } else {
            assert(t.len() == 1 && t[0] == ws@[0]@);
        }
        push_chars(&mut out, &w);
        assert(out@ =~= joined_words(t));
        i += 1;
    }
    assert(v.take(i as int) =~= v);
    chars_to_string(&out)
}

/// The command as the status line shows it: the home directory as `~`, the
/// escaped quotes as plain ones, double quotes left out.
pub open spec fn short_text(line: Seq<char>, home: Seq<char>) -> Seq<char> {
    replaced(replaced(replaced(line, home, "~"@), "'\\''"@, "'"@), "\""@, Seq::empty())
}

impl Cmd {
    /// Makes the command one for the shell `shell`: a command ending in
    /// `!` runs in the foreground (the `!`s at its end dropped); its words,
    /// filled in, are joined into the line the shell runs (`-c` and the
    /// line), and a short form of the line is kept for the status line.
    /// Returns whether it runs in the foreground.
    pub fn prepare_subshell(&mut self, shell: &str, home: &str) -> (fg: bool)
        requires
            home@.len() > 0,
        ensures
            fg == (old(self).cmd@.len() > 0 && old(self).cmd@.last() == '!'),
            final(self).cmd@ == shell@,
            ({
                let base = if fg {
                    trim_end_matches(old(self).cmd@, '!')
                } else {
                    old(self).cmd@
                };
                let line = joined_words(processed_text(base, *old(self)));
                &&& final(self).args matches Some(a)
                &&& a@.len() == 2
                &&& a@[0]@ == "-c"@
                &&& a@[1]@ == line
                &&& final(self).short_cmd matches Some(sc)
                &&& sc@ == short_text(line, home@)
            }),
            final(self).cwd == old(self).cwd,
            final(self).vars == old(self).vars,
    {
        let cs = str_to_chars(self.cmd.as_str());
        let n = cs.len();
        let fg = n > 0 && cs[n - 1] == '!';
        if fg {
            let t = trim_end_matches_chars(&cs, '!');
            self.cmd = chars_to_string(&t);
        }
        let ghost before = *self;
        let ghost base = if fg {
            trim_end_matches(old(self).cmd@, '!')
        } else {
            old(self).cmd@
        };
        assert(before.cmd@ == base);
        assert(processed(before) == processed_text(base, *old(self)));
        let words = self.process();
        let line = join_words(&words);
        assert(line@ == joined_words(processed_text(base, *old(self))));
        let ghost line_v = line@;
        proof {
            reveal_strlit("~");
            reveal_strlit("'\\''");
            reveal_strlit("'");
            reveal_strlit("\"");
            reveal_strlit("-c");
            reveal_strlit("");
        }
        let a = replace_all(line.as_str(), home, "~");
        let b = replace_all(a.as_str(), "'\\''", "'");
        let short = replace_all(b.as_str(), "\"", "");
        let mut args: Vec<String> = Vec::new();
        args.push(String::from_str("-c"));
        args.push(line);
        assert(args@[0]@ == "-c"@);
        assert(args@[1]@ == line_v);
        assert(short@ == replaced(b@, "\""@, ""@));
        assert(b@ == replaced(a@, "'\\''"@, "'"@));
        assert(a@ == replaced(line_v, home@, "~"@));
        assert(""@ == Seq::<char>::empty());
        assert(short@ == short_text(line_v, home@));
        self.cmd = String::from_str(shell);
        self.args = Some(args);
        self.short_cmd = Some(short);
        fg
    }
}


/// An integer as `Display` writes it: a minus sign before a negative one.
pub open spec fn signed_text(n: int) -> Seq<char> {
    if n < 0 {
        seq!['-'] + decimal((-n) as nat)
    } else {
        decimal(n as nat)
    }
}

fn push_signed(out: &mut Vec<char>, n: i32)
    ensures
        final(out)@ == old(out)@ + signed_text(n as int),
{
    if n < 0 {
        out.push('-');
        let m: u32 = if n == i32::MIN {
            2147483648u32
        } else {
            (-n) as u32
        };
        let ghost mid = out@;
        push_decimal(out, m as usize);
        assert(final(out)@ =~= old(out)@ + signed_text(n as int));
    } else {
        push_decimal(out, n as usize);
    }
}

pub(crate) fn push_str_chars(out: &mut Vec<char>, s: &str)
    ensures
        final(out)@ == old(out)@ + s@,
{
    let cs = str_to_chars(s);
    push_chars(out, &cs);
}

/// The process list's header: how many processes still run, of how many.
pub open spec fn running_text(running: nat, total: nat) -> Seq<char> {
    "Running processes: "@ + decimal(running) + " / "@ + decimal(total)
}

/// The process list's header for `running` running processes of `total`.
pub fn running_header(running: usize, total: usize) -> (r: String)
    ensures
        r@ == running_text(running as nat, total as nat),
{
    let mut out: Vec<char> = Vec::new();
    push_str_chars(&mut out, "Running processes: ");
    push_decimal(&mut out, running);
    push_str_chars(&mut out, " / ");
    push_decimal(&mut out, total);
    chars_to_string(&out)
}

/// What the footer tells of a process `cmd` with id `pid`: once it ended,
/// how (in green or red, with its status), else that it still runs.
pub open spec fn proc_info_text(cmd: Seq<char>, pid: nat, status: Option<i32>, success: Option<bool>) -> Seq<char> {
    match status {
        None => "still running"@,
        Some(code) => {
            let how = if success is Some {
                fg_code(2) + "successfully"@
            } else {
                fg_code(1) + "unsuccessfully"@
            };
            let coded = match success {
                Some(true) => fg_code(2) + signed_text(code as int),
                Some(false) => fg_code(1) + signed_text(code as int),
                None => "wtf"@,
            };
            cmd + ":"@ + decimal(pid) + " exited "@ + how + "\x1b[m"@ + bg_code(12) + " with status: "@
                + coded
        },
    }
}

/// The footer's text for a process (before it is fitted to the width).
pub fn proc_info(cmd: &str, pid: u32, status: Option<i32>, success: Option<bool>) -> (r: String)
    ensures
        r@ == proc_info_text(cmd@, pid as nat, status, success),
{
    let code = match status {
        None => return String::from_str("still running"),
        Some(c) => c,
    };
    let mut out: Vec<char> = Vec::new();
    push_str_chars(&mut out, cmd);
    out.push(':');
    push_decimal(&mut out, pid as usize);
    push_str_chars(&mut out, " exited ");
    if success.is_some() {
        push_str_chars(&mut out, color_green().as_str());
        push_str_chars(&mut out, "successfully");
    } else {
        push_str_chars(&mut out, color_red().as_str());
        push_str_chars(&mut out, "unsuccessfully");
    }
    push_str_chars(&mut out, reset().as_str());
    push_str_chars(&mut out, status_bg().as_str());
    push_str_chars(&mut out, " with status: ");
    match success {
        Some(true) => {
            push_str_chars(&mut out, color_green().as_str());
            push_signed(&mut out, code);
        },
        Some(false) => {
            push_str_chars(&mut out, color_red().as_str());
            push_signed(&mut out, code);
        },
        None => push_str_chars(&mut out, "wtf"),
    }
    proof {
        reveal_strlit(":");
    }
    chars_to_string(&out)
}

/// What the status line tells when a foreground command `short_cmd` ended
/// with `code` (its exit code, else the signal, else -1).
pub open spec fn fg_exit_text(short_cmd: Seq<char>, success: bool, code: i32) -> Seq<char> {
    let color = if success {
        fg_code(2)
    } else {
        fg_code(1)
    };
    short_cmd + " exited "@ + color + (if success {
        "successfully"@
    } else {
        "unsuccessfully"@
    }) + "\x1b[m"@ + bg_code(12) + " with status: "@ + color + signed_text(code as int)
}

/// The status line's text after a foreground command ended.
pub fn fg_exit_info(short_cmd: &str, success: bool, code: i32) -> (r: String)
    ensures
        r@ == fg_exit_text(short_cmd@, success, code),
{
    let mut out: Vec<char> = Vec::new();
    push_str_chars(&mut out, short_cmd);
    push_str_chars(&mut out, " exited ");
    let color = if success {
        color_green()
    } else {
        color_red()
    };
    push_str_chars(&mut out, color.as_str());
    if success {
        push_str_chars(&mut out, "successfully");
    } else {
        push_str_chars(&mut out, "unsuccessfully");
    }
    push_str_chars(&mut out, reset().as_str());
    push_str_chars(&mut out, status_bg().as_str());
    push_str_chars(&mut out, " with status: ");
    push_str_chars(&mut out, color.as_str());
    push_signed(&mut out, code);
    chars_to_string(&out)
}

/// The status beside a process in the list: its exit status once it ended,
/// else its id in angle brackets.
pub open spec fn proc_status_text(pid: u32, status: Option<i32>) -> Seq<char> {
    match status {
        Some(code) => signed_text(code as int),
        None => "<"@ + decimal(pid as nat) + ">"@,
    }
}

/// Where a process line can be drawn `xsize` columns wide: the status fits
/// in the width, and so does the cut command's excess.
pub open spec fn proc_line_fits(cmd: Seq<char>, status: Seq<char>, xsize: u16) -> bool {
    let sized = sized_prefix(cmd, xsize as int);
    &&& status.len() <= xsize
    &&& cjk_excess(sized) >= 0
    &&& (cjk_excess(sized) as u16) <= xsize
}

/// A process line: the command cut to the width and padded (the padding
/// less its excess), then at the right end the status in the highlight
/// color, in red where the process failed.
pub open spec fn proc_line_text(cmd: Seq<char>, status: Seq<char>, success: Option<bool>, xsize: u16) -> Seq<char> {
    let sized = sized_prefix(cmd, xsize as int);
    let padding = (xsize - (cjk_excess(sized) as u16)) as nat;
    let shown = if success == Some(false) {
        fg_code(1) + status
    } else {
        status
    };
    "\x1b[s"@ + fg_code(7) + padded(sized, padding) + fg_code(7) + "\x1b[u"@ + right_code(
        (xsize - status.len()) as u16,
    ) + fg_code(10) + shown
}

fn proc_status(pid: u32, status: Option<i32>) -> (r: Vec<char>)
    ensures
        r@ == proc_status_text(pid, status),
{
    let mut out: Vec<char> = Vec::new();
    match status {
        Some(code) => push_signed(&mut out, code),
        None => {
            out.push('<');
            push_decimal(&mut out, pid as usize);
            out.push('>');
        },
    }
    proof {
        reveal_strlit("<");
        reveal_strlit(">");
        assert(status is None ==> out@ =~= proc_status_text(pid, status));
    }
    out
}

/// The line of process `cmd` (id `pid`; its exit status and success once it
/// ended) in a list `xsize` columns wide.
pub fn render_proc(cmd: &str, pid: u32, status: Option<i32>, success: Option<bool>, xsize: u16) -> (r: String)
    requires
        proc_line_fits(cmd@, proc_status_text(pid, status), xsize),
    ensures
        r@ == proc_line_text(cmd@, proc_status_text(pid, status), success, xsize),
{
    let st = proc_status(pid, status);
    let sized = sized_string(cmd, xsize);
    let status_pos = xsize - st.len() as u16;
    let excess = sized.as_str().len() - str_width_cjk(sized.as_str());
    let padding = xsize - excess as u16;
    let mut out: Vec<char> = Vec::new();
    push_str_chars(&mut out, cursor_save().as_str());
    push_str_chars(&mut out, normal_color().as_str());
    push_str_chars(&mut out, pad_chars(sized.as_str(), padding as usize).as_str());
    push_str_chars(&mut out, normal_color().as_str());
    push_str_chars(&mut out, cursor_restore().as_str());
    push_str_chars(&mut out, cursor_right(status_pos).as_str());
    push_str_chars(&mut out, highlight_color().as_str());
    if success == Some(false) {
        push_str_chars(&mut out, color_red().as_str());
    }
    let ghost before = out@;
    push_chars(&mut out, &st);
    chars_to_string(&out)
}

/// `render_proc` where the line can be drawn, and `None` where it cannot.
pub fn try_render_proc(cmd: &str, pid: u32, status: Option<i32>, success: Option<bool>, xsize: u16) -> (r: Option<String>)
    ensures
        match r {
            Some(s) => proc_line_fits(cmd@, proc_status_text(pid, status), xsize) && s@ == proc_line_text(
                cmd@,
                proc_status_text(pid, status),
                success,
                xsize,
            ),
            None => !proc_line_fits(cmd@, proc_status_text(pid, status), xsize),
        },
{
    let st = proc_status(pid, status);
    let sized = sized_string(cmd, xsize);
    let bytes = sized.as_str().len();
    let width = str_width_cjk(sized.as_str());
    if st.len() > xsize as usize || width > bytes || (bytes - width) as u16 > xsize {
        return None;
    }
    Some(render_proc(cmd, pid, status, success, xsize))
}

} // verus!
