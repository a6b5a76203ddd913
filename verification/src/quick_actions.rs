//! Quick actions: executables named like `title?query1?query2!.sh`, whose
//! name tells the action's title, the questions asked before it runs and
//! whether it runs in the foreground; and the keys that pick them.
use vstd::prelude::*;
use std::path::Path;
use crate::keybind::Key;
use crate::files::{opt_view, File};
use crate::preview::{ext_mime_of, mime_by_ext, mime_parts, parse_mime};
use crate::proclist::push_str_chars;
use crate::term::{fg_code, bg_code, highlight_color, status_bg};
use crate::text::{
    chars_eq, chars_of, chars_to_string, parse_unsigned, split, split_chars, str_to_chars,
    trim_end_matches, trim_end_matches_chars,
};

verus! {

/// The file name of a path without its extension, as `Path::file_stem` gives it.
pub uninterp spec fn path_file_stem(path: Seq<char>) -> Option<Seq<char>>;

/// `Path::file_stem`; its result is named `path_file_stem`.
#[verifier::external_body]
fn file_stem_of(path: &str) -> (r: Option<String>)
    ensures
        match r {
            Some(s) => path_file_stem(path@) == Some(s@),
            None => path_file_stem(path@) is None,
        },
{
    Path::new(path).file_stem().map(|s| s.to_string_lossy().to_string())
}

/// The title of the action at `path`: its name up to the first `?`.
pub open spec fn action_title(path: Seq<char>) -> Seq<char> {
    match path_file_stem(path) {
        Some(stem) => split(stem, '?')[0],
        None => "Filename missing!"@,
    }
}

/// The questions of the action at `path`: the parts of its name after each
/// `?`, without the `!` that marks a foreground action.
pub open spec fn action_queries(path: Seq<char>) -> Seq<Seq<char>> {
    match path_file_stem(path) {
        Some(stem) => split(stem, '?').drop_first().map_values(|q: Seq<char>| trim_end_matches(q, '!')),
        None => Seq::empty(),
    }
}

/// Whether the action at `path` runs in the foreground: its name ends with `!`.
pub open spec fn action_sync(path: Seq<char>) -> bool {
    match path_file_stem(path) {
        Some(stem) => stem.len() > 0 && stem.last() == '!',
        None => false,
    }
}

pub open spec fn strings_of(v: Seq<String>) -> Seq<Seq<char>> {
    v.map_values(|s: String| s@)
}

/// What the name of an action's file tells.
pub trait QuickPath {
    fn get_title(&self) -> String;

    fn get_queries(&self) -> Vec<String>;

    fn get_sync(&self) -> bool;
}

impl QuickPath for String {
    fn get_title(&self) -> (r: String)
        ensures
            r@ == action_title(self@),
    {
        match file_stem_of(self.as_str()) {
            Some(stem) => {
                let cs = str_to_chars(stem.as_str());
                let parts = split_chars(&cs, '?');
                proof {
                    crate::text::lemma_split_nonempty(cs@, '?');
                }
                assert(parts@[0]@ == chars_of(parts@)[0]);
                chars_to_string(&parts[0])
            },
            None => String::from_str("Filename missing!"),
        }
    }

    fn get_queries(&self) -> (r: Vec<String>)
        ensures
            strings_of(r@) == action_queries(self@),
    {
        match file_stem_of(self.as_str()) {
            Some(stem) => {
                let cs = str_to_chars(stem.as_str());
                let parts = split_chars(&cs, '?');
                proof {
                    crate::text::lemma_split_nonempty(cs@, '?');
                }
                let ghost want = split(cs@, '?').drop_first().map_values(
                    |q: Seq<char>| trim_end_matches(q, '!'),
                );
                let mut r: Vec<String> = Vec::new();
                let mut i: usize = 1;
                while i < parts.len()
                    invariant
                        1 <= i <= parts@.len(),
                        chars_of(parts@) == split(cs@, '?'),
                        want == split(cs@, '?').drop_first().map_values(
                            |q: Seq<char>| trim_end_matches(q, '!'),
                        ),
                        strings_of(r@) == want.take(i - 1),
                    decreases parts.len() - i,
                {
                    let q = trim_end_matches_chars(&parts[i], '!');
                    let ghost prev = strings_of(r@);
                    r.push(chars_to_string(&q));
                    assert(strings_of(r@) =~= prev.push(q@));
                    assert(want.take(i as int) =~= want.take(i - 1).push(want[i - 1]));
                    i += 1;
                }
                assert(want.take(i - 1) =~= want);
                r
            },
            None => Vec::new(),
        }
    }

    fn get_sync(&self) -> (r: bool)
        ensures
            r == action_sync(self@),
    {
        match file_stem_of(self.as_str()) {
            Some(stem) => {
                let cs = str_to_chars(stem.as_str());
                cs.len() > 0 && cs[cs.len() - 1] == '!'
            },
            None => false,
        }
    }
}

/// The letters that pick actions after the digits: none of them is a key
/// the action list uses itself.
pub open spec fn action_letters() -> Seq<char> {
    seq!['b', 'c', 'd', 'e', 'g', 'h', 'i', 'j', 'k', 'l', 'm', 'o', 'q', 'r', 's', 't', 'u', 'v', 'x', 'y', 'z']
}

fn letters() -> (r: Vec<char>)
    ensures
        r@ == action_letters(),
{
    let v = vec!['b', 'c', 'd', 'e', 'g', 'h', 'i', 'j', 'k', 'l', 'm', 'o', 'q', 'r', 's', 't', 'u', 'v', 'x', 'y', 'z'];
    assert(v@ =~= action_letters());
    v
}

/// The key label of line `num`: its digit below 10, then the letters, then `..`.
pub open spec fn label_of(num: nat) -> Seq<char> {
    if num > 9 && num < action_letters().len() + 10 {
        seq![action_letters()[num - 10]]
    } else if num < 10 {
        seq![('0' as u8 + num) as char]
    } else {
        ".."@
    }
}

/// The key label of line `num`.
pub fn num_to_letter(num: usize) -> (r: String)
    ensures
        r@ == label_of(num as nat),
{
    let ls = letters();
    if num > 9 && num < ls.len() + 10 {
        let c = ls[num - 10];
        let v = vec![c];
        assert(v@ =~= seq![c]);
        chars_to_string(&v)
    } else if num < 10 {
        let c = ((num as u8) + ('0' as u8)) as char;
        let v = vec![c];
        assert(v@ =~= seq![c]);
        chars_to_string(&v)
    } else {
        String::from_str("..")
    }
}

/// The line a key picks: a letter's place among the letters plus 10, or a digit's value.
pub open spec fn num_of(letter: char) -> Option<nat> {
    if let Some(i) = crate::text::find(action_letters(), letter) {
        Some((i + 10) as nat)
    } else {
        match parse_unsigned(seq![letter], usize::MAX as int) {
            Some(n) => Some(n as nat),
            None => None,
        }
    }
}

/// The line a key picks, if any.
pub fn letter_to_num(letter: char) -> (r: Option<usize>)
    ensures
        match num_of(letter) {
            Some(n) => r == Some(n as usize),
            None => r is None,
        },
{
    let ls = letters();
    let mut i: usize = 0;
    while i < ls.len()
        invariant
            i <= ls@.len(),
            ls@ == action_letters(),
            forall|k: int| 0 <= k < i ==> ls@[k] != letter,
        decreases ls.len() - i,
    {
        if ls[i] == letter {
            proof {
                lemma_find_first(action_letters(), letter, i as int);
            }
            return Some(i + 10);
        }
        i += 1;
    }
    proof {
        lemma_find_none(action_letters(), letter);
    }
    let v = vec![letter];
    assert(v@ =~= seq![letter]);
    match crate::text::parse_unsigned_chars(&v, usize::MAX) {
        Some(n) => Some(n),
        None => None,
    }
}

proof fn lemma_find_first(s: Seq<char>, c: char, i: int)
    requires
        0 <= i < s.len(),
        s[i] == c,
        forall|k: int| 0 <= k < i ==> s[k] != c,
    ensures
        crate::text::find(s, c) == Some(i),
    decreases i,
{
    if i > 0 {
        lemma_find_first(s.drop_first(), c, i - 1);
    }
}

proof fn lemma_find_none(s: Seq<char>, c: char)
    requires
        forall|k: int| 0 <= k < s.len() ==> s[k] != c,
    ensures
        crate::text::find(s, c) is None,
    decreases s.len(),
{
    if s.len() > 0 {
        lemma_find_none(s.drop_first(), c);
    }
}

/// What a key press does in the quick action list.
#[derive(Clone, Copy, Debug, PartialEq, Eq, Structural)]
pub enum QuickKeyStep {
    /// The list closes.
    Finish,
    /// The key is left to the widget around the list (moving up and down).
    Undefined,
    /// The chosen action runs, then the list closes.
    RunSelected,
    /// The cursor goes to line `n`; a second press of its key acts on it.
    Select(usize),
    /// The fold at the cursor opens or closes.
    ToggleFold,
    /// The action on line `n` runs, then the list closes.
    Run(usize),
    /// The key is taken, and nothing happens.
    Ignore,
}

/// What `key` does in the quick action list with the cursor on line
/// `selection`, `description_selected` telling whether that line is a
/// fold's description: `a`, `b`, Ctrl-C and Escape close it, `n` and `p` go
/// to the widget around it, `f` runs the chosen action; another character
/// that labels a line first puts the cursor there, and acts on it when it
/// is there already (a description folds or unfolds, an action runs).
pub open spec fn quick_key_step(key: Key, selection: nat, description_selected: bool) -> QuickKeyStep {
    match key {
        Key::Char(c) => if c == 'a' || c == 'b' {
            QuickKeyStep::Finish
        } else if c == 'n' || c == 'p' {
            QuickKeyStep::Undefined
        } else if c == 'f' {
            QuickKeyStep::RunSelected
        } else {
            match num_of(c) {
                Some(n) => if selection != n {
                    QuickKeyStep::Select(n as usize)
                } else if description_selected {
                    QuickKeyStep::ToggleFold
                } else {
                    QuickKeyStep::Run(n as usize)
                },
                None => QuickKeyStep::Ignore,
            }
        },
        Key::Ctrl(c) => if c == 'c' {
            QuickKeyStep::Finish
        } else {
            QuickKeyStep::Undefined
        },
        Key::Esc => QuickKeyStep::Finish,
        _ => QuickKeyStep::Undefined,
    }
}

proof fn lemma_find_bound(s: Seq<char>, c: char)
    ensures
        crate::text::find(s, c) matches Some(i) ==> 0 <= i < s.len(),
    decreases s.len(),
{
    if s.len() > 0 && s[0] != c {
        lemma_find_bound(s.drop_first(), c);
    }
}

proof fn lemma_num_of_bound(c: char)
    ensures
        num_of(c) matches Some(n) ==> n <= usize::MAX,
{
    if let Some(i) = crate::text::find(action_letters(), c) {
        lemma_find_bound(action_letters(), c);
        assert(action_letters().len() == 21);
    } else {
        let d = crate::text::unsigned_digits(seq![c]);
        if d.len() > 0 && crate::text::all_digits(d) {
            crate::text::lemma_digits_value_nonneg(d);
        }
    }
}

/// What a key press does in the quick action list (see `quick_key_step`).
pub fn quick_key(key: Key, selection: usize, description_selected: bool) -> (r: QuickKeyStep)
    ensures
        r == quick_key_step(key, selection as nat, description_selected),
{
    match key {
        Key::Char(c) => if c == 'a' || c == 'b' {
            QuickKeyStep::Finish
        } else if c == 'n' || c == 'p' {
            QuickKeyStep::Undefined
        } else if c == 'f' {
            QuickKeyStep::RunSelected
        } else {
            proof {
                lemma_num_of_bound(c);
            }
            match letter_to_num(c) {
                Some(n) => if selection != n {
                    QuickKeyStep::Select(n)
                } else if description_selected {
                    QuickKeyStep::ToggleFold
                } else {
                    QuickKeyStep::Run(n)
                },
                None => QuickKeyStep::Ignore,
            }
        },
        Key::Ctrl(c) => if c == 'c' {
            QuickKeyStep::Finish
        } else {
            QuickKeyStep::Undefined
        },
        Key::Esc => QuickKeyStep::Finish,
        _ => QuickKeyStep::Undefined,
    }
}

/// The line of an action in the list: its title and each question followed
/// by `?` after a colon, in the highlight color, ending the line.
pub open spec fn action_line(title: Seq<char>, queries: Seq<Seq<char>>) -> Seq<char>
    decreases queries.len(),
{
    if queries.len() == 0 {
        fg_code(10) + title
    } else {
        action_line(title, queries.drop_last()) + ":"@ + queries.last() + "?"@
    }
}

/// The text of a group of actions: its description on the status
/// background, then a line per action.
pub open spec fn actions_text(description: Seq<char>, actions: Seq<(Seq<char>, Seq<Seq<char>>)>) -> Seq<char>
    decreases actions.len(),
{
    if actions.len() == 0 {
        bg_code(12) + description + "\n"@
    } else {
        actions_text(description, actions.drop_last()) + action_line(actions.last().0, actions.last().1)
            + "\n"@
    }
}

/// The titles and questions of actions as text.
pub open spec fn actions_view(actions: Seq<(String, Vec<String>)>) -> Seq<(Seq<char>, Seq<Seq<char>>)> {
    actions.map_values(|a: (String, Vec<String>)| (a.0@, strings_of(a.1@)))
}

fn push_action_line(out: &mut Vec<char>, title: &str, queries: &Vec<String>)
    ensures
        final(out)@ == old(out)@ + action_line(title@, strings_of(queries@)),
{
    push_str_chars(out, highlight_color().as_str());
    push_str_chars(out, title);
    let ghost start = old(out)@;
    let mut i: usize = 0;
    assert(strings_of(queries@).take(0) =~= Seq::<Seq<char>>::empty());
    while i < queries.len()
        invariant
            i <= queries@.len(),
            out@ == start + action_line(title@, strings_of(queries@).take(i as int)),
        decreases queries.len() - i,
    {
        push_str_chars(out, ":");
        push_str_chars(out, queries[i].as_str());
        push_str_chars(out, "?");
        proof {
            reveal_strlit(":");
            reveal_strlit("?");
            assert(strings_of(queries@).take(i + 1).drop_last() =~= strings_of(queries@).take(i as int));
            assert(out@ =~= start + action_line(title@, strings_of(queries@).take(i + 1)));
        }
        i += 1;
    }
    assert(strings_of(queries@).take(i as int) =~= strings_of(queries@));
}

/// The text of a group of actions described by `description`, each action
/// given by its title and questions.
pub fn actions_content(description: &str, actions: &Vec<(String, Vec<String>)>) -> (r: String)
    ensures
        r@ == actions_text(description@, actions_view(actions@)),
{
    let mut out: Vec<char> = Vec::new();
    push_str_chars(&mut out, status_bg().as_str());
    push_str_chars(&mut out, description);
    push_str_chars(&mut out, "\n");
    proof {
        reveal_strlit("\n");
    }
    let ghost av = actions_view(actions@);
    let mut i: usize = 0;
    assert(av.take(0) =~= Seq::<(Seq<char>, Seq<Seq<char>>)>::empty());
    while i < actions.len()
        invariant
            i <= actions@.len(),
            av == actions_view(actions@),
            out@ == actions_text(description@, av.take(i as int)),
        decreases actions.len() - i,
    {
        push_action_line(&mut out, actions[i].0.as_str(), &actions[i].1);
        push_str_chars(&mut out, "\n");
        proof {
            reveal_strlit("\n");
            assert(av.take(i + 1).drop_last() =~= av.take(i as int));
            assert(av[i as int] == (actions@[i as int].0@, strings_of(actions@[i as int].1@)));
        }
        i += 1;
    }
    assert(av.take(i as int) =~= av);
    chars_to_string(&out)
}

/// The media types of a list of optional texts.
pub open spec fn opt_views(v: Seq<Option<String>>) -> Seq<Option<Seq<char>>> {
    v.map_values(|o: Option<String>| opt_view(o))
}

/// The media types of files, by their extensions.
pub open spec fn file_mimes(files: Seq<File>) -> Seq<Option<Seq<char>>> {
    files.map_values(|f: File| ext_mime_of(f.path@))
}

/// What two media types have in common: the media type itself where the two
/// are the same text, type and subtype where they differ elsewhere (a `+`
/// suffix or a parameter), the type and a slash where the subtypes differ,
/// and nothing where the types do or either is unknown.
pub open spec fn mime_meet(common: Option<Seq<char>>, cur: Option<Seq<char>>) -> Option<Seq<char>> {
    if cur == common {
        cur
    } else {
        match (cur, common) {
            (Some(c), Some(m)) => match (mime_parts(c), mime_parts(m)) {
                (Some((ct, cs)), Some((mt, ms))) => if ct == mt && cs == ms {
                    Some(ct + "/"@ + cs)
                } else if ct == mt {
                    Some(ct + "/"@)
                } else {
                    None
                },
                _ => None,
            },
            _ => None,
        }
    }
}

/// `start` met with each of `ms` in turn.
pub open spec fn mime_fold(start: Option<Seq<char>>, ms: Seq<Option<Seq<char>>>) -> Option<Seq<char>>
    decreases ms.len(),
{
    if ms.len() == 0 {
        start
    } else {
        mime_meet(mime_fold(start, ms.drop_last()), ms.last())
    }
}

/// The most specific media type that all of `ms` share, starting from the
/// first; `None` for no media types.
pub open spec fn shared_mime_of(ms: Seq<Option<Seq<char>>>) -> Option<Seq<char>> {
    if ms.len() == 0 {
        None
    } else {
        mime_fold(ms[0], ms)
    }
}

/// Files that all have the same media type share exactly that one.
pub proof fn lemma_shared_mime_of_same(ms: Seq<Option<Seq<char>>>, m: Option<Seq<char>>)
    requires
        ms.len() > 0,
        forall|i: int| 0 <= i < ms.len() ==> #[trigger] ms[i] == m,
    ensures
        shared_mime_of(ms) == m,
{
    lemma_mime_fold_same(ms, m);
}

proof fn lemma_mime_fold_same(ms: Seq<Option<Seq<char>>>, m: Option<Seq<char>>)
    requires
        forall|i: int| 0 <= i < ms.len() ==> #[trigger] ms[i] == m,
    ensures
        mime_fold(m, ms) == m,
    decreases ms.len(),
{
    if ms.len() > 0 {
        lemma_mime_fold_same(ms.drop_last(), m);
        assert(ms.last() == ms[ms.len() - 1]);
    }
}

fn same_text(a: &String, b: &String) -> (r: bool)
    ensures
        r == (a@ == b@),
{
    chars_eq(&str_to_chars(a.as_str()), &str_to_chars(b.as_str()))
}

fn meet(common: Option<String>, cur: Option<String>) -> (r: Option<String>)
    ensures
        opt_view(r) == mime_meet(opt_view(common), opt_view(cur)),
{
    let same = match (&cur, &common) {
        (Some(a), Some(b)) => same_text(a, b),
        (None, None) => true,
        _ => false,
    };
    if same {
        return cur;
    }
    match (cur, common) {
        (Some(c), Some(m)) => match (parse_mime(c.as_str()), parse_mime(m.as_str())) {
            (Some((ct, cs)), Some((mt, ms))) => {
                let same_type = same_text(&ct, &mt);
                if same_type && same_text(&cs, &ms) {
                    let mut out = ct;
                    out.append("/");
                    out.append(cs.as_str());
                    Some(out)
                } else if same_type {
                    let mut out = ct;
                    out.append("/");
                    Some(out)
                } else {
                    None
                }
            },
            _ => None,
        },
        _ => None,
    }
}

/// The most specific media type that all of `mimes` share (see
/// `shared_mime_of`).
pub fn shared_mime(mimes: &Vec<Option<String>>) -> (r: Option<String>)
    ensures
        opt_view(r) == shared_mime_of(opt_views(mimes@)),
{
    if mimes.len() == 0 {
        return None;
    }
    let ghost ms = opt_views(mimes@);
    let mut acc = mimes[0].clone();
    let mut i: usize = 0;
    assert(ms.take(0) =~= Seq::<Option<Seq<char>>>::empty());
    while i < mimes.len()
        invariant
            i <= mimes@.len(),
            mimes@.len() > 0,
            ms == opt_views(mimes@),
            opt_view(acc) == mime_fold(ms[0], ms.take(i as int)),
        decreases mimes.len() - i,
    {
        assert(ms.take(i + 1).drop_last() =~= ms.take(i as int));
        let cur = mimes[i].clone();
        acc = meet(acc, cur);
        i += 1;
    }
    assert(ms.take(i as int) =~= ms);
    acc
}

/// The most specific media type that all `files` share by their extensions:
/// where they differ in subtype only, their type followed by a slash.
pub fn common_mime(files: &Vec<File>) -> (r: Option<String>)
    ensures
        opt_view(r) == shared_mime_of(file_mimes(files@)),
{
    let mut mimes: Vec<Option<String>> = Vec::new();
    let mut i: usize = 0;
    while i < files.len()
        invariant
            i <= files@.len(),
            opt_views(mimes@) == file_mimes(files@).take(i as int),
        decreases files.len() - i,
    {
        let m = mime_by_ext(&files[i]);
        let ghost before = mimes@;
        mimes.push(m);
        assert(mimes@ == before.push(m));
        assert(opt_views(mimes@) =~= opt_views(before).push(opt_view(m)));
        assert(file_mimes(files@)[i as int] == ext_mime_of(files@[i as int].path@));
        i += 1;
        assert(opt_views(mimes@) =~= file_mimes(files@).take(i as int));
    }
    assert(file_mimes(files@).take(i as int) =~= file_mimes(files@));
    shared_mime(&mimes)
}

/// The folders of actions for the media type `mime`: its type, and its type
/// and subtype; `None` where `mime` is no media type.
pub fn action_dirs(mime: &str) -> (r: Option<(String, String)>)
    ensures
        match mime_parts(mime@) {
            Some((t, s)) => r matches Some((a, b)) && a@ == t && b@ == t + "/"@ + s,
            None => r is None,
        },
{
    match parse_mime(mime) {
        Some((t, s)) => {
            let mut sub = t.clone();
            sub.append("/");
            sub.append(s.as_str());
            Some((t, sub))
        },
        None => None,
    }
}

} // verus!
