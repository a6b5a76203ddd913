//! Reading the bindings file: an INI document with one section per widget,
//! where each line binds an action (maybe with a parameter) to a
//! comma-separated list of keys.
use vstd::prelude::*;
use crate::actions::{
    BookmarkAction, FileBrowserAction, FileListAction, FoldAction, LogAction, MediaAction,
    MiniBufferAction, Movement, ProcessAction, QuickActionAction, TabAction,
};
use crate::keybind::{
    parse_any_key, parse_char_or_num, spec_parse_any_key, spec_parse_char_or_num, AnyKey,
    BindingSection, Bindings, CharOrNum, KeyBindError,
};
use crate::text::{
    chars_eq, chars_of, lemma_split_nonempty, rfind, rfind_chars, split, split_chars,
    str_to_chars, sub_chars, trim, trim_chars, trim_end_matches, trim_end_matches_chars,
    trim_start_matches, trim_start_matches_chars,
};

verus! {

/// An action text split into the action's name and its parameter: a text
/// such as `Up(10)` is cut at its last `(`, and the parameter is what lies
/// between the parentheses, if it parses.
pub open spec fn spec_process_action_str(s: Seq<char>) -> (Seq<char>, Option<CharOrNum>) {
    match rfind(s, '(') {
        Some(p) => (
            s.take(p),
            match spec_parse_char_or_num(
                trim_end_matches(trim_start_matches(s.skip(p), '('), ')'),
            ) {
                Ok(v) => Some(v),
                Err(_) => None,
            },
        ),
        None => (s, None),
    }
}

pub fn process_action_str(action_str: &[char]) -> (r: (Vec<char>, Option<CharOrNum>))
    ensures
        r.0@ == spec_process_action_str(action_str@).0,
        r.1 == spec_process_action_str(action_str@).1,
{
    match rfind_chars(action_str, '(') {
        Some(p) => {
            let action = sub_chars(action_str, 0, p);
            let rest = sub_chars(action_str, p, action_str.len());
            assert(action@ =~= action_str@.take(p as int));
            assert(rest@ =~= action_str@.skip(p as int));
            let a = trim_start_matches_chars(&rest, '(');
            let param = trim_end_matches_chars(&a, ')');
            let parsed = match parse_char_or_num(&param) {
                Ok(v) => Some(v),
                Err(_) => None,
            };
            (action, parsed)
        },
        None => (sub_chars(action_str, 0, action_str.len()), None),
    }
}

/// The action an action text of the bindings file stands for, with its
/// parameter inserted, or its default parameter where it has none.
pub open spec fn spec_action_of<A: BindingSection>(s: Seq<char>) -> Option<A> {
    let (name, param) = spec_process_action_str(s);
    match A::from_name_spec(name) {
        None => None,
        Some(a) => Some(
            match param {
                Some(p) => a.insert_config_param_spec(p),
                None => a.as_default_spec(),
            },
        ),
    }
}

/// `m` with each of the key names `keys` that parses (after trimming) bound
/// to `a`, in order; key names that do not parse are skipped.
pub open spec fn spec_bind_keys<A>(m: Map<AnyKey, A>, keys: Seq<Seq<char>>, a: A) -> Map<AnyKey, A>
    decreases keys.len(),
{
    if keys.len() == 0 {
        m
    } else {
        let before = spec_bind_keys(m, keys.drop_last(), a);
        match spec_parse_any_key(trim(keys.last())) {
            Some(k) => before.insert(k, a),
            None => before,
        }
    }
}

/// The bindings a section of the bindings file defines, line by line; a
/// line whose action is unknown is skipped, and later lines override
/// earlier ones for the same key.
pub open spec fn spec_section_bindings<A: BindingSection>(
    entries: Seq<(Seq<char>, Seq<char>)>,
) -> Map<AnyKey, A>
    decreases entries.len(),
{
    if entries.len() == 0 {
        Map::empty()
    } else {
        let before = spec_section_bindings::<A>(entries.drop_last());
        let (action_str, keys_str) = entries.last();
        match spec_action_of::<A>(action_str) {
            None => before,
            Some(a) => spec_bind_keys(before, split(keys_str, ','), a),
        }
    }
}

/// Character views of a list of key/value lines.
pub open spec fn entry_views(e: Seq<(String, String)>) -> Seq<(Seq<char>, Seq<char>)> {
    e.map_values(|p: (String, String)| (p.0@, p.1@))
}

/// Binds each key name of `keys` that parses to `action`.
fn bind_keys<A: BindingSection>(bindings: &mut Bindings<A>, keys: &Vec<Vec<char>>, action: A)
    ensures
        final(bindings)@ == spec_bind_keys(old(bindings)@, chars_of(keys@), action),
{
    let ghost start = bindings@;
    let mut i: usize = 0;
    assert(chars_of(keys@).take(0) =~= Seq::<Seq<char>>::empty());
    while i < keys.len()
        invariant
            i <= keys@.len(),
            bindings@ == spec_bind_keys(start, chars_of(keys@).take(i as int), action),
        decreases keys.len() - i,
    {
        assert(chars_of(keys@).take(i + 1).drop_last() =~= chars_of(keys@).take(i as int));
        assert(chars_of(keys@).take(i + 1).last() == keys@[i as int]@);
        let key_str = trim_chars(&keys[i]);
        let s = chars_to_str_owned(&key_str);
        match parse_any_key(s.as_str()) {
            Ok(key) => {
                bindings.insert(key, action);
            },
            Err(_) => {},
        }
        i += 1;
    }
    assert(chars_of(keys@).take(keys@.len() as int) =~= chars_of(keys@));
}

fn chars_to_str_owned(v: &Vec<char>) -> (r: String)
    ensures
        r@ == v@,
{
    crate::text::chars_to_string(v.as_slice())
}

/// The bindings one section of the bindings file defines.
pub fn parse_section<A: BindingSection>(entries: &Vec<(String, String)>) -> (r: Bindings<A>)
    ensures
        r@ == spec_section_bindings::<A>(entry_views(entries@)),
{
    let mut bindings: Bindings<A> = Bindings::new();
    let mut i: usize = 0;
    assert(entry_views(entries@).take(0) =~= Seq::<(Seq<char>, Seq<char>)>::empty());
    while i < entries.len()
        invariant
            i <= entries@.len(),
            bindings@ == spec_section_bindings::<A>(entry_views(entries@).take(i as int)),
        decreases entries.len() - i,
    {
        let ghost views = entry_views(entries@);
        assert(views.take(i + 1).drop_last() =~= views.take(i as int));
        assert(views.take(i + 1).last() == views[i as int]);
        let action_chars = str_to_chars(entries[i].0.as_str());
        let keys_chars = str_to_chars(entries[i].1.as_str());
        let (name, param) = process_action_str(&action_chars);
        match A::from_name(&name) {
            None => {},
            Some(a) => {
                let action = match param {
                    Some(p) => a.insert_config_param(p),
                    None => a.as_default(),
                };
                let keys = split_chars(&keys_chars, ',');
                bind_keys(&mut bindings, &keys, action);
            },
        }
        i += 1;
    }
    assert(entry_views(entries@).take(entries@.len() as int) =~= entry_views(entries@));
    bindings
}

/// Character views of the sections of an INI document.
pub open spec fn section_views(
    s: Seq<(Option<String>, Vec<(String, String)>)>,
) -> Seq<(Option<Seq<char>>, Seq<(Seq<char>, Seq<char>)>)> {
    s.map_values(
        |p: (Option<String>, Vec<(String, String)>)|
            (
                match p.0 {
                    Some(n) => Some(n@),
                    None => None,
                },
                entry_views(p.1@),
            ),
    )
}

/// What `ini::Ini::load_from_str_noescape` makes of a text: its sections in
/// document order, each with its name (`None` for the lines before the first
/// section header) and its key/value lines in order; or the parser's message.
pub uninterp spec fn ini_document(text: Seq<char>) -> Result<Seq<(Option<Seq<char>>, Seq<(Seq<char>, Seq<char>)>)>, Seq<char>>;

/// Character view of a parsed INI document or of the parser's message.
pub open spec fn sections_result_view(
    r: Result<Vec<(Option<String>, Vec<(String, String)>)>, String>,
) -> Result<Seq<(Option<Seq<char>>, Seq<(Seq<char>, Seq<char>)>)>, Seq<char>> {
    match r {
        Ok(s) => Ok(section_views(s@)),
        Err(e) => Err(e@),
    }
}

/// Calls `ini::Ini::load_from_str_noescape` (an INI parser that keeps
/// backslashes as they are) and lists the parsed sections with their lines in
/// document order; on a parse error gives the error's message. The contract
/// names the result; it states nothing of how the parser reads a text.
#[verifier::external_body]
fn load_ini_sections(text: &str) -> (r: Result<Vec<(Option<String>, Vec<(String, String)>)>, String>)
    ensures
        ini_document(text@) == sections_result_view(r),
{
    ini::Ini::load_from_str_noescape(text)
        .map(|ini| {
            ini.iter()
                .map(|(name, props)| (name.map(|n| n.to_string()), props.iter().map(|(k, v)| (k.to_string(), v.to_string())).collect()))
                .collect()
        })
        .map_err(|e| format!("{}", e))
}

/// Index of the first section named `name`.
pub open spec fn first_section_named(
    secs: Seq<(Option<Seq<char>>, Seq<(Seq<char>, Seq<char>)>)>,
    name: Seq<char>,
) -> Option<int>
    decreases secs.len(),
{
    if secs.len() == 0 {
        None
    } else {
        match first_section_named(secs.drop_last(), name) {
            Some(i) => Some(i),
            None => if secs.last().0 == Some(name) {
                Some(secs.len() - 1)
            } else {
                None
            },
        }
    }
}

/// The bindings of a widget given the sections of the bindings file: the
/// first section with the widget's name, or the default bindings where the
/// file has no such section.
pub open spec fn spec_load_section<A: BindingSection>(
    secs: Seq<(Option<Seq<char>>, Seq<(Seq<char>, Seq<char>)>)>,
) -> Map<AnyKey, A> {
    match first_section_named(secs, A::section_spec()) {
        Some(i) => spec_section_bindings::<A>(secs[i].1),
        None => A::default_bindings_spec(),
    }
}

fn find_section(secs: &Vec<(Option<String>, Vec<(String, String)>)>, name: &str) -> (r: Option<usize>)
    ensures
        r matches Some(i) ==> first_section_named(section_views(secs@), name@) == Some(i as int) && i < secs@.len(),
        r is None ==> first_section_named(section_views(secs@), name@) is None,
{
    let name_chars = str_to_chars(name);
    let mut i: usize = 0;
    let ghost views = section_views(secs@);
    assert(views.take(0) =~= Seq::<(Option<Seq<char>>, Seq<(Seq<char>, Seq<char>)>)>::empty());
    while i < secs.len()
        invariant
            i <= secs@.len(),
            views == section_views(secs@),
            name_chars@ == name@,
            first_section_named(views.take(i as int), name@) is None,
        decreases secs.len() - i,
    {
        assert(views.take(i + 1).drop_last() =~= views.take(i as int));
        assert(views.take(i + 1).last() == views[i as int]);
        match &secs[i].0 {
            Some(n) => {
                let n_chars = str_to_chars(n.as_str());
                assert(views[i as int].0 == Some(n@));
                if chars_eq(&n_chars, &name_chars) {
                    proof {
                        let t = views.take(i + 1);
                        assert(n@ == name@);
                        lemma_first_section_prefix(views, name@, i as int + 1);
                    }
                    return Some(i);
                }
            },
            None => {
                assert(views[i as int].0 == None::<Seq<char>>);
            },
        }
        i += 1;
    }
    assert(views.take(secs@.len() as int) =~= views);
    None
}

proof fn lemma_first_section_prefix(
    secs: Seq<(Option<Seq<char>>, Seq<(Seq<char>, Seq<char>)>)>,
    name: Seq<char>,
    n: int,
)
    requires
        0 < n <= secs.len(),
        first_section_named(secs.take(n), name) == Some(n - 1),
    ensures
        first_section_named(secs, name) == Some(n - 1),
    decreases secs.len() - n,
{
    if n < secs.len() {
        assert(secs.drop_last().take(n) =~= secs.take(n));
        lemma_first_section_prefix(secs.drop_last(), name, n);
    } else {
        assert(secs.take(n) =~= secs);
    }
}

/// The bindings of one widget given the sections of the bindings file.
pub fn load_section<A: BindingSection>(secs: &Vec<(Option<String>, Vec<(String, String)>)>) -> (r: Bindings<A>)
    ensures
        r@ == spec_load_section::<A>(section_views(secs@)),
{
    match find_section(secs, A::section()) {
        Some(i) => {
            assert(section_views(secs@)[i as int].1 == entry_views(secs@[i as int].1@));
            parse_section(&secs[i].1)
        },
        None => A::default_bindings(),
    }
}

/// The key bindings of every widget.
#[derive(Clone, Debug)]
pub struct KeyBinds {
    pub movement: Bindings<Movement>,
    pub filebrowser: Bindings<FileBrowserAction>,
    pub filelist: Bindings<FileListAction>,
    pub tab: Bindings<TabAction>,
    pub media: Bindings<MediaAction>,
    pub bookmark: Bindings<BookmarkAction>,
    pub process: Bindings<ProcessAction>,
    pub minibuffer: Bindings<MiniBufferAction>,
    pub fold: Bindings<FoldAction>,
    pub log: Bindings<LogAction>,
    pub quickaction: Bindings<QuickActionAction>,
}

impl KeyBinds {
    /// Whether every widget's bindings are those given by `f` from its section.
    pub open spec fn loaded_from(self, secs: Seq<(Option<Seq<char>>, Seq<(Seq<char>, Seq<char>)>)>) -> bool {
        &&& self.movement@ == spec_load_section::<Movement>(secs)
        &&& self.filebrowser@ == spec_load_section::<FileBrowserAction>(secs)
        &&& self.filelist@ == spec_load_section::<FileListAction>(secs)
        &&& self.tab@ == spec_load_section::<TabAction>(secs)
        &&& self.media@ == spec_load_section::<MediaAction>(secs)
        &&& self.bookmark@ == spec_load_section::<BookmarkAction>(secs)
        &&& self.process@ == spec_load_section::<ProcessAction>(secs)
        &&& self.minibuffer@ == spec_load_section::<MiniBufferAction>(secs)
        &&& self.fold@ == spec_load_section::<FoldAction>(secs)
        &&& self.log@ == spec_load_section::<LogAction>(secs)
        &&& self.quickaction@ == spec_load_section::<QuickActionAction>(secs)
    }

    /// Whether every widget has its default bindings.
    pub open spec fn is_default(self) -> bool {
        &&& self.movement@ == Movement::default_bindings_spec()
        &&& self.filebrowser@ == FileBrowserAction::default_bindings_spec()
        &&& self.filelist@ == FileListAction::default_bindings_spec()
        &&& self.tab@ == TabAction::default_bindings_spec()
        &&& self.media@ == MediaAction::default_bindings_spec()
        &&& self.bookmark@ == BookmarkAction::default_bindings_spec()
        &&& self.process@ == ProcessAction::default_bindings_spec()
        &&& self.minibuffer@ == MiniBufferAction::default_bindings_spec()
        &&& self.fold@ == FoldAction::default_bindings_spec()
        &&& self.log@ == LogAction::default_bindings_spec()
        &&& self.quickaction@ == QuickActionAction::default_bindings_spec()
    }

    /// Reads the bindings file's text: each widget's bindings come from its
    /// section, and a widget without a section keeps its defaults. A text that
    /// is not a valid INI document is an error.
    pub fn load(text: &str) -> (r: Result<KeyBinds, KeyBindError>)
        ensures
            match ini_document(text@) {
                Ok(secs) => r matches Ok(kb) && kb.loaded_from(secs),
                Err(msg) => r matches Err(KeyBindError::IniError(m)) && m@ == msg,
            },
    {
        match load_ini_sections(text) {
            Err(msg) => Err(KeyBindError::IniError(msg)),
            Ok(secs) => Ok(KeyBinds {
                movement: load_section(&secs),
                filebrowser: load_section(&secs),
                filelist: load_section(&secs),
                tab: load_section(&secs),
                media: load_section(&secs),
                bookmark: load_section(&secs),
                process: load_section(&secs),
                minibuffer: load_section(&secs),
                fold: load_section(&secs),
                log: load_section(&secs),
                quickaction: load_section(&secs),
            }),
        }
    }
}

impl Default for KeyBinds {
    fn default() -> (r: KeyBinds)
        ensures
            r.is_default(),
    {
        KeyBinds {
            movement: Bindings::default(),
            filebrowser: Bindings::default(),
            filelist: Bindings::default(),
            tab: Bindings::default(),
            media: Bindings::default(),
            bookmark: Bindings::default(),
            process: Bindings::default(),
            minibuffer: Bindings::default(),
            fold: Bindings::default(),
            log: Bindings::default(),
            quickaction: Bindings::default(),
        }
    }
}

} // verus!
