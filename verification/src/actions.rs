//! The actions each widget offers, their names in the bindings file, and
//! the keys they are bound to unless the bindings file says otherwise.
use vstd::prelude::*;
use crate::keybind::{AnyKey, BindingSection, Bindings, CharOrNum, Key, found_action, key_from_terminal};
use crate::text::chars_eq;

verus! {

/// Moving the cursor of a list or text.
#[derive(Copy, Clone, Debug, PartialEq, Eq, Structural)]
pub enum Movement {
    Up(usize),
    Down(usize),
    Left,
    Right,
    Top,
    Bottom,
    PageUp,
    PageDown,
}

impl BindingSection for Movement {
    open spec fn section_spec() -> Seq<char> {
        seq!['m', 'o', 'v', 'e', 'm', 'e', 'n', 't']
    }

    open spec fn from_name_spec(name: Seq<char>) -> Option<Self> {
        if name == seq!['U', 'p'] {
            Some(Movement::Up(0))
        } else if name == seq!['D', 'o', 'w', 'n'] {
            Some(Movement::Down(0))
        } else if name == seq!['L', 'e', 'f', 't'] {
            Some(Movement::Left)
        } else if name == seq!['R', 'i', 'g', 'h', 't'] {
            Some(Movement::Right)
        } else if name == seq!['T', 'o', 'p'] {
            Some(Movement::Top)
        } else if name == seq!['B', 'o', 't', 't', 'o', 'm'] {
            Some(Movement::Bottom)
        } else if name == seq!['P', 'a', 'g', 'e', 'U', 'p'] {
            Some(Movement::PageUp)
        } else if name == seq!['P', 'a', 'g', 'e', 'D', 'o', 'w', 'n'] {
            Some(Movement::PageDown)
        } else {
            None
        }
    }

    open spec fn insert_config_param_spec(self, param: CharOrNum) -> Self {
        match self {
            Movement::Up(_) => Movement::Up(match param {
                CharOrNum::Num(x) => x,
                _ => 1,
            }),
            Movement::Down(_) => Movement::Down(match param {
                CharOrNum::Num(x) => x,
                _ => 1,
            }),
            _ => self,
        }
    }

    open spec fn insert_key_param_spec(self, key: Key) -> Self {
        self
    }

    open spec fn as_default_spec(self) -> Self {
        match self {
            Movement::Up(_) => Movement::Up(1),
            Movement::Down(_) => Movement::Down(1),
            _ => self,
        }
    }

    open spec fn default_bindings_spec() -> Map<AnyKey, Self> {
        Map::<AnyKey, Self>::empty()
            .insert(AnyKey::Key(Key::Char('k')), Movement::Up(1))
            .insert(AnyKey::Key(Key::Char('j')), Movement::Down(1))
            .insert(AnyKey::Key(Key::Char('h')), Movement::Left)
            .insert(AnyKey::Key(Key::Char('l')), Movement::Right)
            .insert(AnyKey::Key(Key::Char('<')), Movement::Top)
            .insert(AnyKey::Key(Key::Char('>')), Movement::Bottom)
            .insert(AnyKey::Key(Key::PageUp), Movement::PageUp)
            .insert(AnyKey::Key(Key::PageDown), Movement::PageDown)
            .insert(AnyKey::Key(Key::Char('K')), Movement::Up(10))
            .insert(AnyKey::Key(Key::Char('J')), Movement::Down(10))
            .insert(AnyKey::Key(Key::Down), Movement::Down(1))
            .insert(AnyKey::Key(Key::Up), Movement::Up(1))
            .insert(AnyKey::Key(Key::Home), Movement::Top)
            .insert(AnyKey::Key(Key::End), Movement::Bottom)
            .insert(AnyKey::Key(Key::Ctrl('v')), Movement::PageDown)
            .insert(AnyKey::Key(Key::Ctrl('V')), Movement::PageUp)
    }

    fn section() -> (r: &'static str) {
        proof {
            reveal_strlit("movement");
        }
        "movement"
    }

    fn from_name(name: &[char]) -> (r: Option<Self>) {
        let lit = ['U', 'p'];
        assert(lit@ =~= seq!['U', 'p']);
        if chars_eq(name, &lit) {
            return Some(Movement::Up(0));
        }
        let lit = ['D', 'o', 'w', 'n'];
        assert(lit@ =~= seq!['D', 'o', 'w', 'n']);
        if chars_eq(name, &lit) {
            return Some(Movement::Down(0));
        }
        let lit = ['L', 'e', 'f', 't'];
        assert(lit@ =~= seq!['L', 'e', 'f', 't']);
        if chars_eq(name, &lit) {
            return Some(Movement::Left);
        }
        let lit = ['R', 'i', 'g', 'h', 't'];
        assert(lit@ =~= seq!['R', 'i', 'g', 'h', 't']);
        if chars_eq(name, &lit) {
            return Some(Movement::Right);
        }
        let lit = ['T', 'o', 'p'];
        assert(lit@ =~= seq!['T', 'o', 'p']);
        if chars_eq(name, &lit) {
            return Some(Movement::Top);
        }
        let lit = ['B', 'o', 't', 't', 'o', 'm'];
        assert(lit@ =~= seq!['B', 'o', 't', 't', 'o', 'm']);
        if chars_eq(name, &lit) {
            return Some(Movement::Bottom);
        }
        let lit = ['P', 'a', 'g', 'e', 'U', 'p'];
        assert(lit@ =~= seq!['P', 'a', 'g', 'e', 'U', 'p']);
        if chars_eq(name, &lit) {
            return Some(Movement::PageUp);
        }
        let lit = ['P', 'a', 'g', 'e', 'D', 'o', 'w', 'n'];
        assert(lit@ =~= seq!['P', 'a', 'g', 'e', 'D', 'o', 'w', 'n']);
        if chars_eq(name, &lit) {
            return Some(Movement::PageDown);
        }
        None
    }

    fn insert_config_param(self, param: CharOrNum) -> (r: Self) {
        match self {
            Movement::Up(_) => Movement::Up(param.num_or(1)),
            Movement::Down(_) => Movement::Down(param.num_or(1)),
            _ => self,
        }
    }

    fn insert_key_param(self, key: Key) -> (r: Self) {
        self
    }

    fn as_default(self) -> (r: Self) {
        match self {
            Movement::Up(_) => Movement::Up(1),
            Movement::Down(_) => Movement::Down(1),
            _ => self,
        }
    }

    fn default_bindings() -> (r: Bindings<Self>) {
        let mut b = Bindings::new();
        b.insert(AnyKey::Key(Key::Char('k')), Movement::Up(1));
        b.insert(AnyKey::Key(Key::Char('j')), Movement::Down(1));
        b.insert(AnyKey::Key(Key::Char('h')), Movement::Left);
        b.insert(AnyKey::Key(Key::Char('l')), Movement::Right);
        b.insert(AnyKey::Key(Key::Char('<')), Movement::Top);
        b.insert(AnyKey::Key(Key::Char('>')), Movement::Bottom);
        b.insert(AnyKey::Key(Key::PageUp), Movement::PageUp);
        b.insert(AnyKey::Key(Key::PageDown), Movement::PageDown);
        b.insert(AnyKey::Key(Key::Char('K')), Movement::Up(10));
        b.insert(AnyKey::Key(Key::Char('J')), Movement::Down(10));
        b.insert(AnyKey::Key(Key::Down), Movement::Down(1));
        b.insert(AnyKey::Key(Key::Up), Movement::Up(1));
        b.insert(AnyKey::Key(Key::Home), Movement::Top);
        b.insert(AnyKey::Key(Key::End), Movement::Bottom);
        b.insert(AnyKey::Key(Key::Ctrl('v')), Movement::PageDown);
        b.insert(AnyKey::Key(Key::Ctrl('V')), Movement::PageUp);
        b
    }
}

impl Default for Bindings<Movement> {
    fn default() -> (r: Self)
        ensures
            r@ == Movement::default_bindings_spec(),
    {
        Movement::default_bindings()
    }
}

/// Actions of the file browser.
#[derive(Copy, Clone, Debug, PartialEq, Eq, Structural)]
pub enum FileBrowserAction {
    LeftColumnDown,
    LeftColumnUp,
    GotoHome,
    TurboCd,
    SelectExternal,
    EnterDirExternal,
    Quit,
    QuitWithDir,
    RunInBackground,
    GotoPrevCwd,
    ShowBookmarks,
    AddBookmark,
    ShowProcesses,
    ShowLog,
    ShowQuickActions,
    RunSubshell,
    ToggleColumns,
    ZoomPreview,
    ExecCmd,
}

impl BindingSection for FileBrowserAction {
    open spec fn section_spec() -> Seq<char> {
        seq!['f', 'i', 'l', 'e', 'b', 'r', 'o', 'w', 's', 'e', 'r']
    }

    open spec fn from_name_spec(name: Seq<char>) -> Option<Self> {
        if name == seq!['L', 'e', 'f', 't', 'C', 'o', 'l', 'u', 'm', 'n', 'D', 'o', 'w', 'n'] {
            Some(FileBrowserAction::LeftColumnDown)
        } else if name == seq!['L', 'e', 'f', 't', 'C', 'o', 'l', 'u', 'm', 'n', 'U', 'p'] {
            Some(FileBrowserAction::LeftColumnUp)
        } else if name == seq!['G', 'o', 't', 'o', 'H', 'o', 'm', 'e'] {
            Some(FileBrowserAction::GotoHome)
        } else if name == seq!['T', 'u', 'r', 'b', 'o', 'C', 'd'] {
            Some(FileBrowserAction::TurboCd)
        } else if name == seq!['S', 'e', 'l', 'e', 'c', 't', 'E', 'x', 't', 'e', 'r', 'n', 'a', 'l'] {
            Some(FileBrowserAction::SelectExternal)
        } else if name == seq!['E', 'n', 't', 'e', 'r', 'D', 'i', 'r', 'E', 'x', 't', 'e', 'r', 'n', 'a', 'l'] {
            Some(FileBrowserAction::EnterDirExternal)
        } else if name == seq!['Q', 'u', 'i', 't'] {
            Some(FileBrowserAction::Quit)
        } else if name == seq!['Q', 'u', 'i', 't', 'W', 'i', 't', 'h', 'D', 'i', 'r'] {
            Some(FileBrowserAction::QuitWithDir)
        } else if name == seq!['R', 'u', 'n', 'I', 'n', 'B', 'a', 'c', 'k', 'g', 'r', 'o', 'u', 'n', 'd'] {
            Some(FileBrowserAction::RunInBackground)
        } else if name == seq!['G', 'o', 't', 'o', 'P', 'r', 'e', 'v', 'C', 'w', 'd'] {
            Some(FileBrowserAction::GotoPrevCwd)
        } else if name == seq!['S', 'h', 'o', 'w', 'B', 'o', 'o', 'k', 'm', 'a', 'r', 'k', 's'] {
            Some(FileBrowserAction::ShowBookmarks)
        } else if name == seq!['A', 'd', 'd', 'B', 'o', 'o', 'k', 'm', 'a', 'r', 'k'] {
            Some(FileBrowserAction::AddBookmark)
        } else if name == seq!['S', 'h', 'o', 'w', 'P', 'r', 'o', 'c', 'e', 's', 's', 'e', 's'] {
            Some(FileBrowserAction::ShowProcesses)
        } else if name == seq!['S', 'h', 'o', 'w', 'L', 'o', 'g'] {
            Some(FileBrowserAction::ShowLog)
        } else if name == seq!['S', 'h', 'o', 'w', 'Q', 'u', 'i', 'c', 'k', 'A', 'c', 't', 'i', 'o', 'n', 's'] {
            Some(FileBrowserAction::ShowQuickActions)
        } else if name == seq!['R', 'u', 'n', 'S', 'u', 'b', 's', 'h', 'e', 'l', 'l'] {
            Some(FileBrowserAction::RunSubshell)
        } else if name == seq!['T', 'o', 'g', 'g', 'l', 'e', 'C', 'o', 'l', 'u', 'm', 'n', 's'] {
            Some(FileBrowserAction::ToggleColumns)
        } else if name == seq!['Z', 'o', 'o', 'm', 'P', 'r', 'e', 'v', 'i', 'e', 'w'] {
            Some(FileBrowserAction::ZoomPreview)
        } else if name == seq!['E', 'x', 'e', 'c', 'C', 'm', 'd'] {
            Some(FileBrowserAction::ExecCmd)
        } else {
            None
        }
    }

    open spec fn insert_config_param_spec(self, param: CharOrNum) -> Self {
        self
    }

    open spec fn insert_key_param_spec(self, key: Key) -> Self {
        self
    }

    open spec fn as_default_spec(self) -> Self {
        self
    }

    open spec fn default_bindings_spec() -> Map<AnyKey, Self> {
        Map::<AnyKey, Self>::empty()
            .insert(AnyKey::Key(Key::Char(']')), FileBrowserAction::LeftColumnDown)
            .insert(AnyKey::Key(Key::Char('[')), FileBrowserAction::LeftColumnUp)
            .insert(AnyKey::Key(Key::Char('~')), FileBrowserAction::GotoHome)
            .insert(AnyKey::Key(Key::Char('/')), FileBrowserAction::TurboCd)
            .insert(AnyKey::Key(Key::Alt(' ')), FileBrowserAction::SelectExternal)
            .insert(AnyKey::Key(Key::Char('/')), FileBrowserAction::EnterDirExternal)
            .insert(AnyKey::Key(Key::Char('q')), FileBrowserAction::Quit)
            .insert(AnyKey::Key(Key::Char('Q')), FileBrowserAction::QuitWithDir)
            .insert(AnyKey::Key(Key::Char('F')), FileBrowserAction::RunInBackground)
            .insert(AnyKey::Key(Key::Char('-')), FileBrowserAction::GotoPrevCwd)
            .insert(AnyKey::Key(Key::Char('`')), FileBrowserAction::ShowBookmarks)
            .insert(AnyKey::Key(Key::Char('b')), FileBrowserAction::AddBookmark)
            .insert(AnyKey::Key(Key::Char('w')), FileBrowserAction::ShowProcesses)
            .insert(AnyKey::Key(Key::Char('l')), FileBrowserAction::ShowLog)
            .insert(AnyKey::Key(Key::Char('a')), FileBrowserAction::ShowQuickActions)
            .insert(AnyKey::Key(Key::Char('z')), FileBrowserAction::RunSubshell)
            .insert(AnyKey::Key(Key::Char('c')), FileBrowserAction::ToggleColumns)
            .insert(AnyKey::Key(Key::Char('C')), FileBrowserAction::ZoomPreview)
            .insert(AnyKey::Key(Key::Char('!')), FileBrowserAction::ExecCmd)
    }

    fn section() -> (r: &'static str) {
        proof {
            reveal_strlit("filebrowser");
        }
        "filebrowser"
    }

    fn from_name(name: &[char]) -> (r: Option<Self>) {
        let lit = ['L', 'e', 'f', 't', 'C', 'o', 'l', 'u', 'm', 'n', 'D', 'o', 'w', 'n'];
        assert(lit@ =~= seq!['L', 'e', 'f', 't', 'C', 'o', 'l', 'u', 'm', 'n', 'D', 'o', 'w', 'n']);
        if chars_eq(name, &lit) {
            return Some(FileBrowserAction::LeftColumnDown);
        }
        let lit = ['L', 'e', 'f', 't', 'C', 'o', 'l', 'u', 'm', 'n', 'U', 'p'];
        assert(lit@ =~= seq!['L', 'e', 'f', 't', 'C', 'o', 'l', 'u', 'm', 'n', 'U', 'p']);
        if chars_eq(name, &lit) {
            return Some(FileBrowserAction::LeftColumnUp);
        }
        let lit = ['G', 'o', 't', 'o', 'H', 'o', 'm', 'e'];
        assert(lit@ =~= seq!['G', 'o', 't', 'o', 'H', 'o', 'm', 'e']);
        if chars_eq(name, &lit) {
            return Some(FileBrowserAction::GotoHome);
        }
        let lit = ['T', 'u', 'r', 'b', 'o', 'C', 'd'];
        assert(lit@ =~= seq!['T', 'u', 'r', 'b', 'o', 'C', 'd']);
        if chars_eq(name, &lit) {
            return Some(FileBrowserAction::TurboCd);
        }
        let lit = ['S', 'e', 'l', 'e', 'c', 't', 'E', 'x', 't', 'e', 'r', 'n', 'a', 'l'];
        assert(lit@ =~= seq!['S', 'e', 'l', 'e', 'c', 't', 'E', 'x', 't', 'e', 'r', 'n', 'a', 'l']);
        if chars_eq(name, &lit) {
            return Some(FileBrowserAction::SelectExternal);
        }
        let lit = ['E', 'n', 't', 'e', 'r', 'D', 'i', 'r', 'E', 'x', 't', 'e', 'r', 'n', 'a', 'l'];
        assert(lit@ =~= seq!['E', 'n', 't', 'e', 'r', 'D', 'i', 'r', 'E', 'x', 't', 'e', 'r', 'n', 'a', 'l']);
        if chars_eq(name, &lit) {
            return Some(FileBrowserAction::EnterDirExternal);
        }
        let lit = ['Q', 'u', 'i', 't'];
        assert(lit@ =~= seq!['Q', 'u', 'i', 't']);
        if chars_eq(name, &lit) {
            return Some(FileBrowserAction::Quit);
        }
        let lit = ['Q', 'u', 'i', 't', 'W', 'i', 't', 'h', 'D', 'i', 'r'];
        assert(lit@ =~= seq!['Q', 'u', 'i', 't', 'W', 'i', 't', 'h', 'D', 'i', 'r']);
        if chars_eq(name, &lit) {
            return Some(FileBrowserAction::QuitWithDir);
        }
        let lit = ['R', 'u', 'n', 'I', 'n', 'B', 'a', 'c', 'k', 'g', 'r', 'o', 'u', 'n', 'd'];
        assert(lit@ =~= seq!['R', 'u', 'n', 'I', 'n', 'B', 'a', 'c', 'k', 'g', 'r', 'o', 'u', 'n', 'd']);
        if chars_eq(name, &lit) {
            return Some(FileBrowserAction::RunInBackground);
        }
        let lit = ['G', 'o', 't', 'o', 'P', 'r', 'e', 'v', 'C', 'w', 'd'];
        assert(lit@ =~= seq!['G', 'o', 't', 'o', 'P', 'r', 'e', 'v', 'C', 'w', 'd']);
        if chars_eq(name, &lit) {
            return Some(FileBrowserAction::GotoPrevCwd);
        }
        let lit = ['S', 'h', 'o', 'w', 'B', 'o', 'o', 'k', 'm', 'a', 'r', 'k', 's'];
        assert(lit@ =~= seq!['S', 'h', 'o', 'w', 'B', 'o', 'o', 'k', 'm', 'a', 'r', 'k', 's']);
        if chars_eq(name, &lit) {
            return Some(FileBrowserAction::ShowBookmarks);
        }
        let lit = ['A', 'd', 'd', 'B', 'o', 'o', 'k', 'm', 'a', 'r', 'k'];
        assert(lit@ =~= seq!['A', 'd', 'd', 'B', 'o', 'o', 'k', 'm', 'a', 'r', 'k']);
        if chars_eq(name, &lit) {
            return Some(FileBrowserAction::AddBookmark);
        }
        let lit = ['S', 'h', 'o', 'w', 'P', 'r', 'o', 'c', 'e', 's', 's', 'e', 's'];
        assert(lit@ =~= seq!['S', 'h', 'o', 'w', 'P', 'r', 'o', 'c', 'e', 's', 's', 'e', 's']);
        if chars_eq(name, &lit) {
            return Some(FileBrowserAction::ShowProcesses);
        }
        let lit = ['S', 'h', 'o', 'w', 'L', 'o', 'g'];
        assert(lit@ =~= seq!['S', 'h', 'o', 'w', 'L', 'o', 'g']);
        if chars_eq(name, &lit) {
            return Some(FileBrowserAction::ShowLog);
        }
        let lit = ['S', 'h', 'o', 'w', 'Q', 'u', 'i', 'c', 'k', 'A', 'c', 't', 'i', 'o', 'n', 's'];
        assert(lit@ =~= seq!['S', 'h', 'o', 'w', 'Q', 'u', 'i', 'c', 'k', 'A', 'c', 't', 'i', 'o', 'n', 's']);
        if chars_eq(name, &lit) {
            return Some(FileBrowserAction::ShowQuickActions);
        }
        let lit = ['R', 'u', 'n', 'S', 'u', 'b', 's', 'h', 'e', 'l', 'l'];
        assert(lit@ =~= seq!['R', 'u', 'n', 'S', 'u', 'b', 's', 'h', 'e', 'l', 'l']);
        if chars_eq(name, &lit) {
            return Some(FileBrowserAction::RunSubshell);
        }
        let lit = ['T', 'o', 'g', 'g', 'l', 'e', 'C', 'o', 'l', 'u', 'm', 'n', 's'];
        assert(lit@ =~= seq!['T', 'o', 'g', 'g', 'l', 'e', 'C', 'o', 'l', 'u', 'm', 'n', 's']);
        if chars_eq(name, &lit) {
            return Some(FileBrowserAction::ToggleColumns);
        }
        let lit = ['Z', 'o', 'o', 'm', 'P', 'r', 'e', 'v', 'i', 'e', 'w'];
        assert(lit@ =~= seq!['Z', 'o', 'o', 'm', 'P', 'r', 'e', 'v', 'i', 'e', 'w']);
        if chars_eq(name, &lit) {
            return Some(FileBrowserAction::ZoomPreview);
        }
        let lit = ['E', 'x', 'e', 'c', 'C', 'm', 'd'];
        assert(lit@ =~= seq!['E', 'x', 'e', 'c', 'C', 'm', 'd']);
        if chars_eq(name, &lit) {
            return Some(FileBrowserAction::ExecCmd);
        }
        None
    }

    fn insert_config_param(self, param: CharOrNum) -> (r: Self) {
        self
    }

    fn insert_key_param(self, key: Key) -> (r: Self) {
        self
    }

    fn as_default(self) -> (r: Self) {
        self
    }

    fn default_bindings() -> (r: Bindings<Self>) {
        let mut b = Bindings::new();
        b.insert(AnyKey::Key(Key::Char(']')), FileBrowserAction::LeftColumnDown);
        b.insert(AnyKey::Key(Key::Char('[')), FileBrowserAction::LeftColumnUp);
        b.insert(AnyKey::Key(Key::Char('~')), FileBrowserAction::GotoHome);
        b.insert(AnyKey::Key(Key::Char('/')), FileBrowserAction::TurboCd);
        b.insert(AnyKey::Key(Key::Alt(' ')), FileBrowserAction::SelectExternal);
        b.insert(AnyKey::Key(Key::Char('/')), FileBrowserAction::EnterDirExternal);
        b.insert(AnyKey::Key(Key::Char('q')), FileBrowserAction::Quit);
        b.insert(AnyKey::Key(Key::Char('Q')), FileBrowserAction::QuitWithDir);
        b.insert(AnyKey::Key(Key::Char('F')), FileBrowserAction::RunInBackground);
        b.insert(AnyKey::Key(Key::Char('-')), FileBrowserAction::GotoPrevCwd);
        b.insert(AnyKey::Key(Key::Char('`')), FileBrowserAction::ShowBookmarks);
        b.insert(AnyKey::Key(Key::Char('b')), FileBrowserAction::AddBookmark);
        b.insert(AnyKey::Key(Key::Char('w')), FileBrowserAction::ShowProcesses);
        b.insert(AnyKey::Key(Key::Char('l')), FileBrowserAction::ShowLog);
        b.insert(AnyKey::Key(Key::Char('a')), FileBrowserAction::ShowQuickActions);
        b.insert(AnyKey::Key(Key::Char('z')), FileBrowserAction::RunSubshell);
        b.insert(AnyKey::Key(Key::Char('c')), FileBrowserAction::ToggleColumns);
        b.insert(AnyKey::Key(Key::Char('C')), FileBrowserAction::ZoomPreview);
        b.insert(AnyKey::Key(Key::Char('!')), FileBrowserAction::ExecCmd);
        b
    }
}

impl Default for Bindings<FileBrowserAction> {
    fn default() -> (r: Self)
        ensures
            r@ == FileBrowserAction::default_bindings_spec(),
    {
        FileBrowserAction::default_bindings()
    }
}

/// Actions of a file list.
#[derive(Copy, Clone, Debug, PartialEq, Eq, Structural)]
pub enum FileListAction {
    Search,
    SearchNext,
    SearchPrev,
    Filter,
    Select,
    InvertSelection,
    ClearSelection,
    FilterSelection,
    ToggleTag,
    ToggleHidden,
    ReverseSort,
    CycleSort,
    ToNextMtime,
    ToPrevMtime,
    ToggleDirsFirst,
}

impl BindingSection for FileListAction {
    open spec fn section_spec() -> Seq<char> {
        seq!['f', 'i', 'l', 'e', 'l', 'i', 's', 't']
    }

    open spec fn from_name_spec(name: Seq<char>) -> Option<Self> {
        if name == seq!['S', 'e', 'a', 'r', 'c', 'h'] {
            Some(FileListAction::Search)
        } else if name == seq!['S', 'e', 'a', 'r', 'c', 'h', 'N', 'e', 'x', 't'] {
            Some(FileListAction::SearchNext)
        } else if name == seq!['S', 'e', 'a', 'r', 'c', 'h', 'P', 'r', 'e', 'v'] {
            Some(FileListAction::SearchPrev)
        } else if name == seq!['F', 'i', 'l', 't', 'e', 'r'] {
            Some(FileListAction::Filter)
        } else if name == seq!['S', 'e', 'l', 'e', 'c', 't'] {
            Some(FileListAction::Select)
        } else if name == seq!['I', 'n', 'v', 'e', 'r', 't', 'S', 'e', 'l', 'e', 'c', 't', 'i', 'o', 'n'] {
            Some(FileListAction::InvertSelection)
        } else if name == seq!['C', 'l', 'e', 'a', 'r', 'S', 'e', 'l', 'e', 'c', 't', 'i', 'o', 'n'] {
            Some(FileListAction::ClearSelection)
        } else if name == seq!['F', 'i', 'l', 't', 'e', 'r', 'S', 'e', 'l', 'e', 'c', 't', 'i', 'o', 'n'] {
            Some(FileListAction::FilterSelection)
        } else if name == seq!['T', 'o', 'g', 'g', 'l', 'e', 'T', 'a', 'g'] {
            Some(FileListAction::ToggleTag)
        } else if name == seq!['T', 'o', 'g', 'g', 'l', 'e', 'H', 'i', 'd', 'd', 'e', 'n'] {
            Some(FileListAction::ToggleHidden)
        } else if name == seq!['R', 'e', 'v', 'e', 'r', 's', 'e', 'S', 'o', 'r', 't'] {
            Some(FileListAction::ReverseSort)
        } else if name == seq!['C', 'y', 'c', 'l', 'e', 'S', 'o', 'r', 't'] {
            Some(FileListAction::CycleSort)
        } else if name == seq!['T', 'o', 'N', 'e', 'x', 't', 'M', 't', 'i', 'm', 'e'] {
            Some(FileListAction::ToNextMtime)
        } else if name == seq!['T', 'o', 'P', 'r', 'e', 'v', 'M', 't', 'i', 'm', 'e'] {
            Some(FileListAction::ToPrevMtime)
        } else if name == seq!['T', 'o', 'g', 'g', 'l', 'e', 'D', 'i', 'r', 's', 'F', 'i', 'r', 's', 't'] {
            Some(FileListAction::ToggleDirsFirst)
        } else {
            None
        }
    }

    open spec fn insert_config_param_spec(self, param: CharOrNum) -> Self {
        self
    }

    open spec fn insert_key_param_spec(self, key: Key) -> Self {
        self
    }

    open spec fn as_default_spec(self) -> Self {
        self
    }

    open spec fn default_bindings_spec() -> Map<AnyKey, Self> {
        Map::<AnyKey, Self>::empty()
            .insert(AnyKey::Key(Key::Ctrl('s')), FileListAction::Search)
            .insert(AnyKey::Key(Key::Alt('s')), FileListAction::SearchNext)
            .insert(AnyKey::Key(Key::Alt('S')), FileListAction::SearchPrev)
            .insert(AnyKey::Key(Key::Ctrl('f')), FileListAction::Filter)
            .insert(AnyKey::Key(Key::Char(' ')), FileListAction::Select)
            .insert(AnyKey::Key(Key::Char('v')), FileListAction::InvertSelection)
            .insert(AnyKey::Key(Key::Char('V')), FileListAction::ClearSelection)
            .insert(AnyKey::Key(Key::Alt('V')), FileListAction::FilterSelection)
            .insert(AnyKey::Key(Key::Char('t')), FileListAction::ToggleTag)
            .insert(AnyKey::Key(Key::Char('h')), FileListAction::ToggleHidden)
            .insert(AnyKey::Key(Key::Char('r')), FileListAction::ReverseSort)
            .insert(AnyKey::Key(Key::Char('s')), FileListAction::CycleSort)
            .insert(AnyKey::Key(Key::Char('K')), FileListAction::ToNextMtime)
            .insert(AnyKey::Key(Key::Char('k')), FileListAction::ToPrevMtime)
            .insert(AnyKey::Key(Key::Char('d')), FileListAction::ToggleDirsFirst)
    }

    fn section() -> (r: &'static str) {
        proof {
            reveal_strlit("filelist");
        }
        "filelist"
    }

    fn from_name(name: &[char]) -> (r: Option<Self>) {
        let lit = ['S', 'e', 'a', 'r', 'c', 'h'];
        assert(lit@ =~= seq!['S', 'e', 'a', 'r', 'c', 'h']);
        if chars_eq(name, &lit) {
            return Some(FileListAction::Search);
        }
        let lit = ['S', 'e', 'a', 'r', 'c', 'h', 'N', 'e', 'x', 't'];
        assert(lit@ =~= seq!['S', 'e', 'a', 'r', 'c', 'h', 'N', 'e', 'x', 't']);
        if chars_eq(name, &lit) {
            return Some(FileListAction::SearchNext);
        }
        let lit = ['S', 'e', 'a', 'r', 'c', 'h', 'P', 'r', 'e', 'v'];
        assert(lit@ =~= seq!['S', 'e', 'a', 'r', 'c', 'h', 'P', 'r', 'e', 'v']);
        if chars_eq(name, &lit) {
            return Some(FileListAction::SearchPrev);
        }
        let lit = ['F', 'i', 'l', 't', 'e', 'r'];
        assert(lit@ =~= seq!['F', 'i', 'l', 't', 'e', 'r']);
        if chars_eq(name, &lit) {
            return Some(FileListAction::Filter);
        }
        let lit = ['S', 'e', 'l', 'e', 'c', 't'];
        assert(lit@ =~= seq!['S', 'e', 'l', 'e', 'c', 't']);
        if chars_eq(name, &lit) {
            return Some(FileListAction::Select);
        }
        let lit = ['I', 'n', 'v', 'e', 'r', 't', 'S', 'e', 'l', 'e', 'c', 't', 'i', 'o', 'n'];
        assert(lit@ =~= seq!['I', 'n', 'v', 'e', 'r', 't', 'S', 'e', 'l', 'e', 'c', 't', 'i', 'o', 'n']);
        if chars_eq(name, &lit) {
            return Some(FileListAction::InvertSelection);
        }
        let lit = ['C', 'l', 'e', 'a', 'r', 'S', 'e', 'l', 'e', 'c', 't', 'i', 'o', 'n'];
        assert(lit@ =~= seq!['C', 'l', 'e', 'a', 'r', 'S', 'e', 'l', 'e', 'c', 't', 'i', 'o', 'n']);
        if chars_eq(name, &lit) {
            return Some(FileListAction::ClearSelection);
        }
        let lit = ['F', 'i', 'l', 't', 'e', 'r', 'S', 'e', 'l', 'e', 'c', 't', 'i', 'o', 'n'];
        assert(lit@ =~= seq!['F', 'i', 'l', 't', 'e', 'r', 'S', 'e', 'l', 'e', 'c', 't', 'i', 'o', 'n']);
        if chars_eq(name, &lit) {
            return Some(FileListAction::FilterSelection);
        }
        let lit = ['T', 'o', 'g', 'g', 'l', 'e', 'T', 'a', 'g'];
        assert(lit@ =~= seq!['T', 'o', 'g', 'g', 'l', 'e', 'T', 'a', 'g']);
        if chars_eq(name, &lit) {
            return Some(FileListAction::ToggleTag);
        }
        let lit = ['T', 'o', 'g', 'g', 'l', 'e', 'H', 'i', 'd', 'd', 'e', 'n'];
        assert(lit@ =~= seq!['T', 'o', 'g', 'g', 'l', 'e', 'H', 'i', 'd', 'd', 'e', 'n']);
        if chars_eq(name, &lit) {
            return Some(FileListAction::ToggleHidden);
        }
        let lit = ['R', 'e', 'v', 'e', 'r', 's', 'e', 'S', 'o', 'r', 't'];
        assert(lit@ =~= seq!['R', 'e', 'v', 'e', 'r', 's', 'e', 'S', 'o', 'r', 't']);
        if chars_eq(name, &lit) {
            return Some(FileListAction::ReverseSort);
        }
        let lit = ['C', 'y', 'c', 'l', 'e', 'S', 'o', 'r', 't'];
        assert(lit@ =~= seq!['C', 'y', 'c', 'l', 'e', 'S', 'o', 'r', 't']);
        if chars_eq(name, &lit) {
            return Some(FileListAction::CycleSort);
        }
        let lit = ['T', 'o', 'N', 'e', 'x', 't', 'M', 't', 'i', 'm', 'e'];
        assert(lit@ =~= seq!['T', 'o', 'N', 'e', 'x', 't', 'M', 't', 'i', 'm', 'e']);
        if chars_eq(name, &lit) {
            return Some(FileListAction::ToNextMtime);
        }
        let lit = ['T', 'o', 'P', 'r', 'e', 'v', 'M', 't', 'i', 'm', 'e'];
        assert(lit@ =~= seq!['T', 'o', 'P', 'r', 'e', 'v', 'M', 't', 'i', 'm', 'e']);
        if chars_eq(name, &lit) {
            return Some(FileListAction::ToPrevMtime);
        }
        let lit = ['T', 'o', 'g', 'g', 'l', 'e', 'D', 'i', 'r', 's', 'F', 'i', 'r', 's', 't'];
        assert(lit@ =~= seq!['T', 'o', 'g', 'g', 'l', 'e', 'D', 'i', 'r', 's', 'F', 'i', 'r', 's', 't']);
        if chars_eq(name, &lit) {
            return Some(FileListAction::ToggleDirsFirst);
        }
        None
    }

    fn insert_config_param(self, param: CharOrNum) -> (r: Self) {
        self
    }

    fn insert_key_param(self, key: Key) -> (r: Self) {
        self
    }

    fn as_default(self) -> (r: Self) {
        self
    }

    fn default_bindings() -> (r: Bindings<Self>) {
        let mut b = Bindings::new();
        b.insert(AnyKey::Key(Key::Ctrl('s')), FileListAction::Search);
        b.insert(AnyKey::Key(Key::Alt('s')), FileListAction::SearchNext);
        b.insert(AnyKey::Key(Key::Alt('S')), FileListAction::SearchPrev);
        b.insert(AnyKey::Key(Key::Ctrl('f')), FileListAction::Filter);
        b.insert(AnyKey::Key(Key::Char(' ')), FileListAction::Select);
        b.insert(AnyKey::Key(Key::Char('v')), FileListAction::InvertSelection);
        b.insert(AnyKey::Key(Key::Char('V')), FileListAction::ClearSelection);
        b.insert(AnyKey::Key(Key::Alt('V')), FileListAction::FilterSelection);
        b.insert(AnyKey::Key(Key::Char('t')), FileListAction::ToggleTag);
        b.insert(AnyKey::Key(Key::Char('h')), FileListAction::ToggleHidden);
        b.insert(AnyKey::Key(Key::Char('r')), FileListAction::ReverseSort);
        b.insert(AnyKey::Key(Key::Char('s')), FileListAction::CycleSort);
        b.insert(AnyKey::Key(Key::Char('K')), FileListAction::ToNextMtime);
        b.insert(AnyKey::Key(Key::Char('k')), FileListAction::ToPrevMtime);
        b.insert(AnyKey::Key(Key::Char('d')), FileListAction::ToggleDirsFirst);
        b
    }
}

impl Default for Bindings<FileListAction> {
    fn default() -> (r: Self)
        ensures
            r@ == FileListAction::default_bindings_spec(),
    {
        FileListAction::default_bindings()
    }
}

/// Actions on tabs.
#[derive(Copy, Clone, Debug, PartialEq, Eq, Structural)]
pub enum TabAction {
    NewTab,
    CloseTab,
    NextTab,
    PrevTab,
    GotoTab(usize),
}

impl BindingSection for TabAction {
    open spec fn section_spec() -> Seq<char> {
        seq!['t', 'a', 'b', 's']
    }

    open spec fn from_name_spec(name: Seq<char>) -> Option<Self> {
        if name == seq!['N', 'e', 'w', 'T', 'a', 'b'] {
            Some(TabAction::NewTab)
        } else if name == seq!['C', 'l', 'o', 's', 'e', 'T', 'a', 'b'] {
            Some(TabAction::CloseTab)
        } else if name == seq!['N', 'e', 'x', 't', 'T', 'a', 'b'] {
            Some(TabAction::NextTab)
        } else if name == seq!['P', 'r', 'e', 'v', 'T', 'a', 'b'] {
            Some(TabAction::PrevTab)
        } else if name == seq!['G', 'o', 't', 'o', 'T', 'a', 'b'] {
            Some(TabAction::GotoTab(0))
        } else {
            None
        }
    }

    open spec fn insert_config_param_spec(self, param: CharOrNum) -> Self {
        match self {
            TabAction::GotoTab(_) => TabAction::GotoTab(match param {
                CharOrNum::Num(x) => x,
                _ => 1,
            }),
            _ => self,
        }
    }

    open spec fn insert_key_param_spec(self, key: Key) -> Self {
        match (self, key) {
            (TabAction::GotoTab(_), Key::F(n)) => TabAction::GotoTab((n - 1) as usize),
            _ => self,
        }
    }

    open spec fn as_default_spec(self) -> Self {
        self
    }

    open spec fn default_bindings_spec() -> Map<AnyKey, Self> {
        Map::<AnyKey, Self>::empty()
            .insert(AnyKey::Key(Key::Ctrl('t')), TabAction::NewTab)
            .insert(AnyKey::Key(Key::Ctrl('w')), TabAction::CloseTab)
            .insert(AnyKey::Key(Key::Char('\t')), TabAction::NextTab)
            .insert(AnyKey::Key(Key::BackTab), TabAction::PrevTab)
            .insert(AnyKey::AnyF, TabAction::GotoTab(0))
    }

    fn section() -> (r: &'static str) {
        proof {
            reveal_strlit("tabs");
        }
        "tabs"
    }

    fn from_name(name: &[char]) -> (r: Option<Self>) {
        let lit = ['N', 'e', 'w', 'T', 'a', 'b'];
        assert(lit@ =~= seq!['N', 'e', 'w', 'T', 'a', 'b']);
        if chars_eq(name, &lit) {
            return Some(TabAction::NewTab);
        }
        let lit = ['C', 'l', 'o', 's', 'e', 'T', 'a', 'b'];
        assert(lit@ =~= seq!['C', 'l', 'o', 's', 'e', 'T', 'a', 'b']);
        if chars_eq(name, &lit) {
            return Some(TabAction::CloseTab);
        }
        let lit = ['N', 'e', 'x', 't', 'T', 'a', 'b'];
        assert(lit@ =~= seq!['N', 'e', 'x', 't', 'T', 'a', 'b']);
        if chars_eq(name, &lit) {
            return Some(TabAction::NextTab);
        }
        let lit = ['P', 'r', 'e', 'v', 'T', 'a', 'b'];
        assert(lit@ =~= seq!['P', 'r', 'e', 'v', 'T', 'a', 'b']);
        if chars_eq(name, &lit) {
            return Some(TabAction::PrevTab);
        }
        let lit = ['G', 'o', 't', 'o', 'T', 'a', 'b'];
        assert(lit@ =~= seq!['G', 'o', 't', 'o', 'T', 'a', 'b']);
        if chars_eq(name, &lit) {
            return Some(TabAction::GotoTab(0));
        }
        None
    }

    fn insert_config_param(self, param: CharOrNum) -> (r: Self) {
        match self {
            TabAction::GotoTab(_) => TabAction::GotoTab(param.num_or(1)),
            _ => self,
        }
    }

    fn insert_key_param(self, key: Key) -> (r: Self) {
        match (self, key) {
            (TabAction::GotoTab(_), Key::F(n)) => TabAction::GotoTab(n as usize - 1),
            _ => self,
        }
    }

    fn as_default(self) -> (r: Self) {
        self
    }

    fn default_bindings() -> (r: Bindings<Self>) {
        let mut b = Bindings::new();
        b.insert(AnyKey::Key(Key::Ctrl('t')), TabAction::NewTab);
        b.insert(AnyKey::Key(Key::Ctrl('w')), TabAction::CloseTab);
        b.insert(AnyKey::Key(Key::Char('\t')), TabAction::NextTab);
        b.insert(AnyKey::Key(Key::BackTab), TabAction::PrevTab);
        b.insert(AnyKey::AnyF, TabAction::GotoTab(0));
        b
    }
}

impl Default for Bindings<TabAction> {
    fn default() -> (r: Self)
        ensures
            r@ == TabAction::default_bindings_spec(),
    {
        TabAction::default_bindings()
    }
}

/// Actions of the media player.
#[derive(Copy, Clone, Debug, PartialEq, Eq, Structural)]
pub enum MediaAction {
    TogglePause,
    ToggleMute,
    SeekForward,
    SeekBackward,
}

impl BindingSection for MediaAction {
    open spec fn section_spec() -> Seq<char> {
        seq!['m', 'e', 'd', 'i', 'a']
    }

    open spec fn from_name_spec(name: Seq<char>) -> Option<Self> {
        if name == seq!['T', 'o', 'g', 'g', 'l', 'e', 'P', 'a', 'u', 's', 'e'] {
            Some(MediaAction::TogglePause)
        } else if name == seq!['T', 'o', 'g', 'g', 'l', 'e', 'M', 'u', 't', 'e'] {
            Some(MediaAction::ToggleMute)
        } else if name == seq!['S', 'e', 'e', 'k', 'F', 'o', 'r', 'w', 'a', 'r', 'd'] {
            Some(MediaAction::SeekForward)
        } else if name == seq!['S', 'e', 'e', 'k', 'B', 'a', 'c', 'k', 'w', 'a', 'r', 'd'] {
            Some(MediaAction::SeekBackward)
        } else {
            None
        }
    }

    open spec fn insert_config_param_spec(self, param: CharOrNum) -> Self {
        self
    }

    open spec fn insert_key_param_spec(self, key: Key) -> Self {
        self
    }

    open spec fn as_default_spec(self) -> Self {
        self
    }

    open spec fn default_bindings_spec() -> Map<AnyKey, Self> {
        Map::<AnyKey, Self>::empty()
            .insert(AnyKey::Key(Key::Alt('m')), MediaAction::TogglePause)
            .insert(AnyKey::Key(Key::Alt('M')), MediaAction::ToggleMute)
            .insert(AnyKey::Key(Key::Alt('>')), MediaAction::SeekForward)
            .insert(AnyKey::Key(Key::Alt('<')), MediaAction::SeekBackward)
    }

    fn section() -> (r: &'static str) {
        proof {
            reveal_strlit("media");
        }
        "media"
    }

    fn from_name(name: &[char]) -> (r: Option<Self>) {
        let lit = ['T', 'o', 'g', 'g', 'l', 'e', 'P', 'a', 'u', 's', 'e'];
        assert(lit@ =~= seq!['T', 'o', 'g', 'g', 'l', 'e', 'P', 'a', 'u', 's', 'e']);
        if chars_eq(name, &lit) {
            return Some(MediaAction::TogglePause);
        }
        let lit = ['T', 'o', 'g', 'g', 'l', 'e', 'M', 'u', 't', 'e'];
        assert(lit@ =~= seq!['T', 'o', 'g', 'g', 'l', 'e', 'M', 'u', 't', 'e']);
        if chars_eq(name, &lit) {
            return Some(MediaAction::ToggleMute);
        }
        let lit = ['S', 'e', 'e', 'k', 'F', 'o', 'r', 'w', 'a', 'r', 'd'];
        assert(lit@ =~= seq!['S', 'e', 'e', 'k', 'F', 'o', 'r', 'w', 'a', 'r', 'd']);
        if chars_eq(name, &lit) {
            return Some(MediaAction::SeekForward);
        }
        let lit = ['S', 'e', 'e', 'k', 'B', 'a', 'c', 'k', 'w', 'a', 'r', 'd'];
        assert(lit@ =~= seq!['S', 'e', 'e', 'k', 'B', 'a', 'c', 'k', 'w', 'a', 'r', 'd']);
        if chars_eq(name, &lit) {
            return Some(MediaAction::SeekBackward);
        }
        None
    }

    fn insert_config_param(self, param: CharOrNum) -> (r: Self) {
        self
    }

    fn insert_key_param(self, key: Key) -> (r: Self) {
        self
    }

    fn as_default(self) -> (r: Self) {
        self
    }

    fn default_bindings() -> (r: Bindings<Self>) {
        let mut b = Bindings::new();
        b.insert(AnyKey::Key(Key::Alt('m')), MediaAction::TogglePause);
        b.insert(AnyKey::Key(Key::Alt('M')), MediaAction::ToggleMute);
        b.insert(AnyKey::Key(Key::Alt('>')), MediaAction::SeekForward);
        b.insert(AnyKey::Key(Key::Alt('<')), MediaAction::SeekBackward);
        b
    }
}

impl Default for Bindings<MediaAction> {
    fn default() -> (r: Self)
        ensures
            r@ == MediaAction::default_bindings_spec(),
    {
        MediaAction::default_bindings()
    }
}

/// Actions of the bookmark popup.
#[derive(Copy, Clone, Debug, PartialEq, Eq, Structural)]
pub enum BookmarkAction {
    GotoLastCwd,
    Goto(char),
    Delete(char),
}

impl BindingSection for BookmarkAction {
    open spec fn section_spec() -> Seq<char> {
        seq!['b', 'o', 'o', 'k', 'm', 'a', 'r', 'k', 's']
    }

    open spec fn from_name_spec(name: Seq<char>) -> Option<Self> {
        if name == seq!['G', 'o', 't', 'o', 'L', 'a', 's', 't', 'C', 'w', 'd'] {
            Some(BookmarkAction::GotoLastCwd)
        } else if name == seq!['G', 'o', 't', 'o'] {
            Some(BookmarkAction::Goto('\0'))
        } else if name == seq!['D', 'e', 'l', 'e', 't', 'e'] {
            Some(BookmarkAction::Delete('\0'))
        } else {
            None
        }
    }

    open spec fn insert_config_param_spec(self, param: CharOrNum) -> Self {
        match self {
            BookmarkAction::Goto(_) => BookmarkAction::Goto(match param {
                CharOrNum::Char(x) => x,
                _ => 'E',
            }),
            _ => self,
        }
    }

    open spec fn insert_key_param_spec(self, key: Key) -> Self {
        match (self, key) {
            (BookmarkAction::Goto(_), Key::Char(ch)) => BookmarkAction::Goto(ch),
            (BookmarkAction::Delete(_), Key::Char(ch)) => BookmarkAction::Delete(ch),
            _ => self,
        }
    }

    open spec fn as_default_spec(self) -> Self {
        self
    }

    open spec fn default_bindings_spec() -> Map<AnyKey, Self> {
        Map::<AnyKey, Self>::empty()
            .insert(AnyKey::Key(Key::Char('`')), BookmarkAction::GotoLastCwd)
            .insert(AnyKey::AnyChar, BookmarkAction::Goto('\0'))
            .insert(AnyKey::AnyAlt, BookmarkAction::Delete('\0'))
    }

    fn section() -> (r: &'static str) {
        proof {
            reveal_strlit("bookmarks");
        }
        "bookmarks"
    }

    fn from_name(name: &[char]) -> (r: Option<Self>) {
        let lit = ['G', 'o', 't', 'o', 'L', 'a', 's', 't', 'C', 'w', 'd'];
        assert(lit@ =~= seq!['G', 'o', 't', 'o', 'L', 'a', 's', 't', 'C', 'w', 'd']);
        if chars_eq(name, &lit) {
            return Some(BookmarkAction::GotoLastCwd);
        }
        let lit = ['G', 'o', 't', 'o'];
        assert(lit@ =~= seq!['G', 'o', 't', 'o']);
        if chars_eq(name, &lit) {
            return Some(BookmarkAction::Goto('\0'));
        }
        let lit = ['D', 'e', 'l', 'e', 't', 'e'];
        assert(lit@ =~= seq!['D', 'e', 'l', 'e', 't', 'e']);
        if chars_eq(name, &lit) {
            return Some(BookmarkAction::Delete('\0'));
        }
        None
    }

    fn insert_config_param(self, param: CharOrNum) -> (r: Self) {
        match self {
            BookmarkAction::Goto(_) => BookmarkAction::Goto(param.char_or('E')),
            _ => self,
        }
    }

    fn insert_key_param(self, key: Key) -> (r: Self) {
        match (self, key) {
            (BookmarkAction::Goto(_), Key::Char(ch)) => BookmarkAction::Goto(ch),
            (BookmarkAction::Delete(_), Key::Char(ch)) => BookmarkAction::Delete(ch),
            _ => self,
        }
    }

    fn as_default(self) -> (r: Self) {
        self
    }

    fn default_bindings() -> (r: Bindings<Self>) {
        let mut b = Bindings::new();
        b.insert(AnyKey::Key(Key::Char('`')), BookmarkAction::GotoLastCwd);
        b.insert(AnyKey::AnyChar, BookmarkAction::Goto('\0'));
        b.insert(AnyKey::AnyAlt, BookmarkAction::Delete('\0'));
        b
    }
}

impl Default for Bindings<BookmarkAction> {
    fn default() -> (r: Self)
        ensures
            r@ == BookmarkAction::default_bindings_spec(),
    {
        BookmarkAction::default_bindings()
    }
}

/// Actions of the process viewer.
#[derive(Copy, Clone, Debug, PartialEq, Eq, Structural)]
pub enum ProcessAction {
    Close,
    Remove,
    Kill,
    FollowOutput,
    ScrollOutputDown,
    ScrollOutputUp,
    ScrollOutputPageDown,
    ScrollOutputPageUp,
    ScrollOutputBottom,
    ScrollOutputTop,
}

impl BindingSection for ProcessAction {
    open spec fn section_spec() -> Seq<char> {
        seq!['p', 'r', 'o', 'c', 'e', 's', 's', 'e', 's']
    }

    open spec fn from_name_spec(name: Seq<char>) -> Option<Self> {
        if name == seq!['C', 'l', 'o', 's', 'e'] {
            Some(ProcessAction::Close)
        } else if name == seq!['R', 'e', 'm', 'o', 'v', 'e'] {
            Some(ProcessAction::Remove)
        } else if name == seq!['K', 'i', 'l', 'l'] {
            Some(ProcessAction::Kill)
        } else if name == seq!['F', 'o', 'l', 'l', 'o', 'w', 'O', 'u', 't', 'p', 'u', 't'] {
            Some(ProcessAction::FollowOutput)
        } else if name == seq!['S', 'c', 'r', 'o', 'l', 'l', 'O', 'u', 't', 'p', 'u', 't', 'D', 'o', 'w', 'n'] {
            Some(ProcessAction::ScrollOutputDown)
        } else if name == seq!['S', 'c', 'r', 'o', 'l', 'l', 'O', 'u', 't', 'p', 'u', 't', 'U', 'p'] {
            Some(ProcessAction::ScrollOutputUp)
        } else if name == seq!['S', 'c', 'r', 'o', 'l', 'l', 'O', 'u', 't', 'p', 'u', 't', 'P', 'a', 'g', 'e', 'D', 'o', 'w', 'n'] {
            Some(ProcessAction::ScrollOutputPageDown)
        } else if name == seq!['S', 'c', 'r', 'o', 'l', 'l', 'O', 'u', 't', 'p', 'u', 't', 'P', 'a', 'g', 'e', 'U', 'p'] {
            Some(ProcessAction::ScrollOutputPageUp)
        } else if name == seq!['S', 'c', 'r', 'o', 'l', 'l', 'O', 'u', 't', 'p', 'u', 't', 'B', 'o', 't', 't', 'o', 'm'] {
            Some(ProcessAction::ScrollOutputBottom)
        } else if name == seq!['S', 'c', 'r', 'o', 'l', 'l', 'O', 'u', 't', 'p', 'u', 't', 'T', 'o', 'p'] {
            Some(ProcessAction::ScrollOutputTop)
        } else {
            None
        }
    }

    open spec fn insert_config_param_spec(self, param: CharOrNum) -> Self {
        self
    }

    open spec fn insert_key_param_spec(self, key: Key) -> Self {
        self
    }

    open spec fn as_default_spec(self) -> Self {
        self
    }

    open spec fn default_bindings_spec() -> Map<AnyKey, Self> {
        Map::<AnyKey, Self>::empty()
            .insert(AnyKey::Key(Key::Char('w')), ProcessAction::Close)
            .insert(AnyKey::Key(Key::Char('d')), ProcessAction::Remove)
            .insert(AnyKey::Key(Key::Char('k')), ProcessAction::Kill)
            .insert(AnyKey::Key(Key::Char('f')), ProcessAction::FollowOutput)
            .insert(AnyKey::Key(Key::Ctrl('n')), ProcessAction::ScrollOutputDown)
            .insert(AnyKey::Key(Key::Ctrl('p')), ProcessAction::ScrollOutputUp)
            .insert(AnyKey::Key(Key::Ctrl('v')), ProcessAction::ScrollOutputPageDown)
            .insert(AnyKey::Key(Key::Ctrl('V')), ProcessAction::ScrollOutputPageUp)
            .insert(AnyKey::Key(Key::Char('>')), ProcessAction::ScrollOutputBottom)
            .insert(AnyKey::Key(Key::Ctrl('<')), ProcessAction::ScrollOutputTop)
    }

    fn section() -> (r: &'static str) {
        proof {
            reveal_strlit("processes");
        }
        "processes"
    }

    fn from_name(name: &[char]) -> (r: Option<Self>) {
        let lit = ['C', 'l', 'o', 's', 'e'];
        assert(lit@ =~= seq!['C', 'l', 'o', 's', 'e']);
        if chars_eq(name, &lit) {
            return Some(ProcessAction::Close);
        }
        let lit = ['R', 'e', 'm', 'o', 'v', 'e'];
        assert(lit@ =~= seq!['R', 'e', 'm', 'o', 'v', 'e']);
        if chars_eq(name, &lit) {
            return Some(ProcessAction::Remove);
        }
        let lit = ['K', 'i', 'l', 'l'];
        assert(lit@ =~= seq!['K', 'i', 'l', 'l']);
        if chars_eq(name, &lit) {
            return Some(ProcessAction::Kill);
        }
        let lit = ['F', 'o', 'l', 'l', 'o', 'w', 'O', 'u', 't', 'p', 'u', 't'];
        assert(lit@ =~= seq!['F', 'o', 'l', 'l', 'o', 'w', 'O', 'u', 't', 'p', 'u', 't']);
        if chars_eq(name, &lit) {
            return Some(ProcessAction::FollowOutput);
        }
        let lit = ['S', 'c', 'r', 'o', 'l', 'l', 'O', 'u', 't', 'p', 'u', 't', 'D', 'o', 'w', 'n'];
        assert(lit@ =~= seq!['S', 'c', 'r', 'o', 'l', 'l', 'O', 'u', 't', 'p', 'u', 't', 'D', 'o', 'w', 'n']);
        if chars_eq(name, &lit) {
            return Some(ProcessAction::ScrollOutputDown);
        }
        let lit = ['S', 'c', 'r', 'o', 'l', 'l', 'O', 'u', 't', 'p', 'u', 't', 'U', 'p'];
        assert(lit@ =~= seq!['S', 'c', 'r', 'o', 'l', 'l', 'O', 'u', 't', 'p', 'u', 't', 'U', 'p']);
        if chars_eq(name, &lit) {
            return Some(ProcessAction::ScrollOutputUp);
        }
        let lit = ['S', 'c', 'r', 'o', 'l', 'l', 'O', 'u', 't', 'p', 'u', 't', 'P', 'a', 'g', 'e', 'D', 'o', 'w', 'n'];
        assert(lit@ =~= seq!['S', 'c', 'r', 'o', 'l', 'l', 'O', 'u', 't', 'p', 'u', 't', 'P', 'a', 'g', 'e', 'D', 'o', 'w', 'n']);
        if chars_eq(name, &lit) {
            return Some(ProcessAction::ScrollOutputPageDown);
        }
        let lit = ['S', 'c', 'r', 'o', 'l', 'l', 'O', 'u', 't', 'p', 'u', 't', 'P', 'a', 'g', 'e', 'U', 'p'];
        assert(lit@ =~= seq!['S', 'c', 'r', 'o', 'l', 'l', 'O', 'u', 't', 'p', 'u', 't', 'P', 'a', 'g', 'e', 'U', 'p']);
        if chars_eq(name, &lit) {
            return Some(ProcessAction::ScrollOutputPageUp);
        }
        let lit = ['S', 'c', 'r', 'o', 'l', 'l', 'O', 'u', 't', 'p', 'u', 't', 'B', 'o', 't', 't', 'o', 'm'];
        assert(lit@ =~= seq!['S', 'c', 'r', 'o', 'l', 'l', 'O', 'u', 't', 'p', 'u', 't', 'B', 'o', 't', 't', 'o', 'm']);
        if chars_eq(name, &lit) {
            return Some(ProcessAction::ScrollOutputBottom);
        }
        let lit = ['S', 'c', 'r', 'o', 'l', 'l', 'O', 'u', 't', 'p', 'u', 't', 'T', 'o', 'p'];
        assert(lit@ =~= seq!['S', 'c', 'r', 'o', 'l', 'l', 'O', 'u', 't', 'p', 'u', 't', 'T', 'o', 'p']);
        if chars_eq(name, &lit) {
            return Some(ProcessAction::ScrollOutputTop);
        }
        None
    }

    fn insert_config_param(self, param: CharOrNum) -> (r: Self) {
        self
    }

    fn insert_key_param(self, key: Key) -> (r: Self) {
        self
    }

    fn as_default(self) -> (r: Self) {
        self
    }

    fn default_bindings() -> (r: Bindings<Self>) {
        let mut b = Bindings::new();
        b.insert(AnyKey::Key(Key::Char('w')), ProcessAction::Close);
        b.insert(AnyKey::Key(Key::Char('d')), ProcessAction::Remove);
        b.insert(AnyKey::Key(Key::Char('k')), ProcessAction::Kill);
        b.insert(AnyKey::Key(Key::Char('f')), ProcessAction::FollowOutput);
        b.insert(AnyKey::Key(Key::Ctrl('n')), ProcessAction::ScrollOutputDown);
        b.insert(AnyKey::Key(Key::Ctrl('p')), ProcessAction::ScrollOutputUp);
        b.insert(AnyKey::Key(Key::Ctrl('v')), ProcessAction::ScrollOutputPageDown);
        b.insert(AnyKey::Key(Key::Ctrl('V')), ProcessAction::ScrollOutputPageUp);
        b.insert(AnyKey::Key(Key::Char('>')), ProcessAction::ScrollOutputBottom);
        b.insert(AnyKey::Key(Key::Ctrl('<')), ProcessAction::ScrollOutputTop);
        b
    }
}

impl Default for Bindings<ProcessAction> {
    fn default() -> (r: Self)
        ensures
            r@ == ProcessAction::default_bindings_spec(),
    {
        ProcessAction::default_bindings()
    }
}

/// Editing actions of the minibuffer.
#[derive(Copy, Clone, Debug, PartialEq, Eq, Structural)]
pub enum MiniBufferAction {
    InsertChar(char),
    InsertTab(usize),
    Cancel,
    Finish,
    Complete,
    DeleteChar,
    BackwardDeleteChar,
    CursorLeft,
    CursorRight,
    HistoryUp,
    HistoryDown,
    ClearLine,
    DeleteWord,
    CursorToStart,
    CursorToEnd,
}

impl BindingSection for MiniBufferAction {
    open spec fn section_spec() -> Seq<char> {
        seq!['m', 'i', 'n', 'i', 'b', 'u', 'f', 'f', 'e', 'r']
    }

    open spec fn from_name_spec(name: Seq<char>) -> Option<Self> {
        if name == seq!['I', 'n', 's', 'e', 'r', 't', 'C', 'h', 'a', 'r'] {
            Some(MiniBufferAction::InsertChar('\0'))
        } else if name == seq!['I', 'n', 's', 'e', 'r', 't', 'T', 'a', 'b'] {
            Some(MiniBufferAction::InsertTab(0))
        } else if name == seq!['C', 'a', 'n', 'c', 'e', 'l'] {
            Some(MiniBufferAction::Cancel)
        } else if name == seq!['F', 'i', 'n', 'i', 's', 'h'] {
            Some(MiniBufferAction::Finish)
        } else if name == seq!['C', 'o', 'm', 'p', 'l', 'e', 't', 'e'] {
            Some(MiniBufferAction::Complete)
        } else if name == seq!['D', 'e', 'l', 'e', 't', 'e', 'C', 'h', 'a', 'r'] {
            Some(MiniBufferAction::DeleteChar)
        } else if name == seq!['B', 'a', 'c', 'k', 'w', 'a', 'r', 'd', 'D', 'e', 'l', 'e', 't', 'e', 'C', 'h', 'a', 'r'] {
            Some(MiniBufferAction::BackwardDeleteChar)
        } else if name == seq!['C', 'u', 'r', 's', 'o', 'r', 'L', 'e', 'f', 't'] {
            Some(MiniBufferAction::CursorLeft)
        } else if name == seq!['C', 'u', 'r', 's', 'o', 'r', 'R', 'i', 'g', 'h', 't'] {
            Some(MiniBufferAction::CursorRight)
        } else if name == seq!['H', 'i', 's', 't', 'o', 'r', 'y', 'U', 'p'] {
            Some(MiniBufferAction::HistoryUp)
        } else if name == seq!['H', 'i', 's', 't', 'o', 'r', 'y', 'D', 'o', 'w', 'n'] {
            Some(MiniBufferAction::HistoryDown)
        } else if name == seq!['C', 'l', 'e', 'a', 'r', 'L', 'i', 'n', 'e'] {
            Some(MiniBufferAction::ClearLine)
        } else if name == seq!['D', 'e', 'l', 'e', 't', 'e', 'W', 'o', 'r', 'd'] {
            Some(MiniBufferAction::DeleteWord)
        } else if name == seq!['C', 'u', 'r', 's', 'o', 'r', 'T', 'o', 'S', 't', 'a', 'r', 't'] {
            Some(MiniBufferAction::CursorToStart)
        } else if name == seq!['C', 'u', 'r', 's', 'o', 'r', 'T', 'o', 'E', 'n', 'd'] {
            Some(MiniBufferAction::CursorToEnd)
        } else {
            None
        }
    }

    open spec fn insert_config_param_spec(self, param: CharOrNum) -> Self {
        match self {
            MiniBufferAction::InsertChar(_) => MiniBufferAction::InsertChar(match param {
                CharOrNum::Char(x) => x,
                _ => 'E',
            }),
            _ => self,
        }
    }

    open spec fn insert_key_param_spec(self, key: Key) -> Self {
        match (self, key) {
            (MiniBufferAction::InsertChar(_), Key::Char(ch)) => MiniBufferAction::InsertChar(ch),
            (MiniBufferAction::InsertTab(_), Key::F(n)) => MiniBufferAction::InsertTab(n as usize),
            _ => self,
        }
    }

    open spec fn as_default_spec(self) -> Self {
        self
    }

    open spec fn default_bindings_spec() -> Map<AnyKey, Self> {
        Map::<AnyKey, Self>::empty()
            .insert(AnyKey::AnyChar, MiniBufferAction::InsertChar('\0'))
            .insert(AnyKey::AnyF, MiniBufferAction::InsertTab(0))
            .insert(AnyKey::Key(Key::Ctrl('c')), MiniBufferAction::Cancel)
            .insert(AnyKey::Key(Key::Char('\n')), MiniBufferAction::Finish)
            .insert(AnyKey::Key(Key::Char('\t')), MiniBufferAction::Complete)
            .insert(AnyKey::Key(Key::Delete), MiniBufferAction::DeleteChar)
            .insert(AnyKey::Key(Key::Backspace), MiniBufferAction::BackwardDeleteChar)
            .insert(AnyKey::Key(Key::Ctrl('b')), MiniBufferAction::CursorLeft)
            .insert(AnyKey::Key(Key::Ctrl('f')), MiniBufferAction::CursorRight)
            .insert(AnyKey::Key(Key::Ctrl('p')), MiniBufferAction::HistoryUp)
            .insert(AnyKey::Key(Key::Ctrl('n')), MiniBufferAction::HistoryDown)
            .insert(AnyKey::Key(Key::Ctrl('u')), MiniBufferAction::ClearLine)
            .insert(AnyKey::Key(Key::Ctrl('h')), MiniBufferAction::DeleteWord)
            .insert(AnyKey::Key(Key::Ctrl('a')), MiniBufferAction::CursorToStart)
            .insert(AnyKey::Key(Key::Ctrl('e')), MiniBufferAction::CursorToEnd)
            .insert(AnyKey::Key(Key::Esc), MiniBufferAction::Cancel)
            .insert(AnyKey::AnyChar, MiniBufferAction::InsertChar('E'))
            .insert(AnyKey::Key(Key::Ctrl('d')), MiniBufferAction::DeleteChar)
            .insert(AnyKey::Key(Key::Left), MiniBufferAction::CursorLeft)
            .insert(AnyKey::Key(Key::Right), MiniBufferAction::CursorRight)
            .insert(AnyKey::Key(Key::Alt('p')), MiniBufferAction::HistoryUp)
            .insert(AnyKey::Key(Key::Alt('n')), MiniBufferAction::HistoryDown)
            .insert(AnyKey::Key(Key::Down), MiniBufferAction::HistoryDown)
    }

    fn section() -> (r: &'static str) {
        proof {
            reveal_strlit("minibuffer");
        }
        "minibuffer"
    }

    fn from_name(name: &[char]) -> (r: Option<Self>) {
        let lit = ['I', 'n', 's', 'e', 'r', 't', 'C', 'h', 'a', 'r'];
        assert(lit@ =~= seq!['I', 'n', 's', 'e', 'r', 't', 'C', 'h', 'a', 'r']);
        if chars_eq(name, &lit) {
            return Some(MiniBufferAction::InsertChar('\0'));
        }
        let lit = ['I', 'n', 's', 'e', 'r', 't', 'T', 'a', 'b'];
        assert(lit@ =~= seq!['I', 'n', 's', 'e', 'r', 't', 'T', 'a', 'b']);
        if chars_eq(name, &lit) {
            return Some(MiniBufferAction::InsertTab(0));
        }
        let lit = ['C', 'a', 'n', 'c', 'e', 'l'];
        assert(lit@ =~= seq!['C', 'a', 'n', 'c', 'e', 'l']);
        if chars_eq(name, &lit) {
            return Some(MiniBufferAction::Cancel);
        }
        let lit = ['F', 'i', 'n', 'i', 's', 'h'];
        assert(lit@ =~= seq!['F', 'i', 'n', 'i', 's', 'h']);
        if chars_eq(name, &lit) {
            return Some(MiniBufferAction::Finish);
        }
        let lit = ['C', 'o', 'm', 'p', 'l', 'e', 't', 'e'];
        assert(lit@ =~= seq!['C', 'o', 'm', 'p', 'l', 'e', 't', 'e']);
        if chars_eq(name, &lit) {
            return Some(MiniBufferAction::Complete);
        }
        let lit = ['D', 'e', 'l', 'e', 't', 'e', 'C', 'h', 'a', 'r'];
        assert(lit@ =~= seq!['D', 'e', 'l', 'e', 't', 'e', 'C', 'h', 'a', 'r']);
        if chars_eq(name, &lit) {
            return Some(MiniBufferAction::DeleteChar);
        }
        let lit = ['B', 'a', 'c', 'k', 'w', 'a', 'r', 'd', 'D', 'e', 'l', 'e', 't', 'e', 'C', 'h', 'a', 'r'];
        assert(lit@ =~= seq!['B', 'a', 'c', 'k', 'w', 'a', 'r', 'd', 'D', 'e', 'l', 'e', 't', 'e', 'C', 'h', 'a', 'r']);
        if chars_eq(name, &lit) {
            return Some(MiniBufferAction::BackwardDeleteChar);
        }
        let lit = ['C', 'u', 'r', 's', 'o', 'r', 'L', 'e', 'f', 't'];
        assert(lit@ =~= seq!['C', 'u', 'r', 's', 'o', 'r', 'L', 'e', 'f', 't']);
        if chars_eq(name, &lit) {
            return Some(MiniBufferAction::CursorLeft);
        }
        let lit = ['C', 'u', 'r', 's', 'o', 'r', 'R', 'i', 'g', 'h', 't'];
        assert(lit@ =~= seq!['C', 'u', 'r', 's', 'o', 'r', 'R', 'i', 'g', 'h', 't']);
        if chars_eq(name, &lit) {
            return Some(MiniBufferAction::CursorRight);
        }
        let lit = ['H', 'i', 's', 't', 'o', 'r', 'y', 'U', 'p'];
        assert(lit@ =~= seq!['H', 'i', 's', 't', 'o', 'r', 'y', 'U', 'p']);
        if chars_eq(name, &lit) {
            return Some(MiniBufferAction::HistoryUp);
        }
        let lit = ['H', 'i', 's', 't', 'o', 'r', 'y', 'D', 'o', 'w', 'n'];
        assert(lit@ =~= seq!['H', 'i', 's', 't', 'o', 'r', 'y', 'D', 'o', 'w', 'n']);
        if chars_eq(name, &lit) {
            return Some(MiniBufferAction::HistoryDown);
        }
        let lit = ['C', 'l', 'e', 'a', 'r', 'L', 'i', 'n', 'e'];
        assert(lit@ =~= seq!['C', 'l', 'e', 'a', 'r', 'L', 'i', 'n', 'e']);
        if chars_eq(name, &lit) {
            return Some(MiniBufferAction::ClearLine);
        }
        let lit = ['D', 'e', 'l', 'e', 't', 'e', 'W', 'o', 'r', 'd'];
        assert(lit@ =~= seq!['D', 'e', 'l', 'e', 't', 'e', 'W', 'o', 'r', 'd']);
        if chars_eq(name, &lit) {
            return Some(MiniBufferAction::DeleteWord);
        }
        let lit = ['C', 'u', 'r', 's', 'o', 'r', 'T', 'o', 'S', 't', 'a', 'r', 't'];
        assert(lit@ =~= seq!['C', 'u', 'r', 's', 'o', 'r', 'T', 'o', 'S', 't', 'a', 'r', 't']);
        if chars_eq(name, &lit) {
            return Some(MiniBufferAction::CursorToStart);
        }
        let lit = ['C', 'u', 'r', 's', 'o', 'r', 'T', 'o', 'E', 'n', 'd'];
        assert(lit@ =~= seq!['C', 'u', 'r', 's', 'o', 'r', 'T', 'o', 'E', 'n', 'd']);
        if chars_eq(name, &lit) {
            return Some(MiniBufferAction::CursorToEnd);
        }
        None
    }

    fn insert_config_param(self, param: CharOrNum) -> (r: Self) {
        match self {
            MiniBufferAction::InsertChar(_) => MiniBufferAction::InsertChar(param.char_or('E')),
            _ => self,
        }
    }

    fn insert_key_param(self, key: Key) -> (r: Self) {
        match (self, key) {
            (MiniBufferAction::InsertChar(_), Key::Char(ch)) => MiniBufferAction::InsertChar(ch),
            (MiniBufferAction::InsertTab(_), Key::F(n)) => MiniBufferAction::InsertTab(n as usize),
            _ => self,
        }
    }

    fn as_default(self) -> (r: Self) {
        self
    }

    fn default_bindings() -> (r: Bindings<Self>) {
        let mut b = Bindings::new();
        b.insert(AnyKey::AnyChar, MiniBufferAction::InsertChar('\0'));
        b.insert(AnyKey::AnyF, MiniBufferAction::InsertTab(0));
        b.insert(AnyKey::Key(Key::Ctrl('c')), MiniBufferAction::Cancel);
        b.insert(AnyKey::Key(Key::Char('\n')), MiniBufferAction::Finish);
        b.insert(AnyKey::Key(Key::Char('\t')), MiniBufferAction::Complete);
        b.insert(AnyKey::Key(Key::Delete), MiniBufferAction::DeleteChar);
        b.insert(AnyKey::Key(Key::Backspace), MiniBufferAction::BackwardDeleteChar);
        b.insert(AnyKey::Key(Key::Ctrl('b')), MiniBufferAction::CursorLeft);
        b.insert(AnyKey::Key(Key::Ctrl('f')), MiniBufferAction::CursorRight);
        b.insert(AnyKey::Key(Key::Ctrl('p')), MiniBufferAction::HistoryUp);
        b.insert(AnyKey::Key(Key::Ctrl('n')), MiniBufferAction::HistoryDown);
        b.insert(AnyKey::Key(Key::Ctrl('u')), MiniBufferAction::ClearLine);
        b.insert(AnyKey::Key(Key::Ctrl('h')), MiniBufferAction::DeleteWord);
        b.insert(AnyKey::Key(Key::Ctrl('a')), MiniBufferAction::CursorToStart);
        b.insert(AnyKey::Key(Key::Ctrl('e')), MiniBufferAction::CursorToEnd);
        b.insert(AnyKey::Key(Key::Esc), MiniBufferAction::Cancel);
        b.insert(AnyKey::AnyChar, MiniBufferAction::InsertChar('E'));
        b.insert(AnyKey::Key(Key::Ctrl('d')), MiniBufferAction::DeleteChar);
        b.insert(AnyKey::Key(Key::Left), MiniBufferAction::CursorLeft);
        b.insert(AnyKey::Key(Key::Right), MiniBufferAction::CursorRight);
        b.insert(AnyKey::Key(Key::Alt('p')), MiniBufferAction::HistoryUp);
        b.insert(AnyKey::Key(Key::Alt('n')), MiniBufferAction::HistoryDown);
        b.insert(AnyKey::Key(Key::Down), MiniBufferAction::HistoryDown);
        b
    }
}

impl Default for Bindings<MiniBufferAction> {
    fn default() -> (r: Self)
        ensures
            r@ == MiniBufferAction::default_bindings_spec(),
    {
        MiniBufferAction::default_bindings()
    }
}

/// Actions of a folding list.
#[derive(Copy, Clone, Debug, PartialEq, Eq, Structural)]
pub enum FoldAction {
    ToggleFold,
}

impl BindingSection for FoldAction {
    open spec fn section_spec() -> Seq<char> {
        seq!['f', 'o', 'l', 'd']
    }

    open spec fn from_name_spec(name: Seq<char>) -> Option<Self> {
        if name == seq!['T', 'o', 'g', 'g', 'l', 'e', 'F', 'o', 'l', 'd'] {
            Some(FoldAction::ToggleFold)
        } else {
            None
        }
    }

    open spec fn insert_config_param_spec(self, param: CharOrNum) -> Self {
        self
    }

    open spec fn insert_key_param_spec(self, key: Key) -> Self {
        self
    }

    open spec fn as_default_spec(self) -> Self {
        self
    }

    open spec fn default_bindings_spec() -> Map<AnyKey, Self> {
        Map::<AnyKey, Self>::empty()
            .insert(AnyKey::Key(Key::Char('t')), FoldAction::ToggleFold)
    }

    fn section() -> (r: &'static str) {
        proof {
            reveal_strlit("fold");
        }
        "fold"
    }

    fn from_name(name: &[char]) -> (r: Option<Self>) {
        let lit = ['T', 'o', 'g', 'g', 'l', 'e', 'F', 'o', 'l', 'd'];
        assert(lit@ =~= seq!['T', 'o', 'g', 'g', 'l', 'e', 'F', 'o', 'l', 'd']);
        if chars_eq(name, &lit) {
            return Some(FoldAction::ToggleFold);
        }
        None
    }

    fn insert_config_param(self, param: CharOrNum) -> (r: Self) {
        self
    }

    fn insert_key_param(self, key: Key) -> (r: Self) {
        self
    }

    fn as_default(self) -> (r: Self) {
        self
    }

    fn default_bindings() -> (r: Bindings<Self>) {
        let mut b = Bindings::new();
        b.insert(AnyKey::Key(Key::Char('t')), FoldAction::ToggleFold);
        b
    }
}

impl Default for Bindings<FoldAction> {
    fn default() -> (r: Self)
        ensures
            r@ == FoldAction::default_bindings_spec(),
    {
        FoldAction::default_bindings()
    }
}

/// Actions of the log viewer.
#[derive(Copy, Clone, Debug, PartialEq, Eq, Structural)]
pub enum LogAction {
    Close,
}

impl BindingSection for LogAction {
    open spec fn section_spec() -> Seq<char> {
        seq!['l', 'o', 'g']
    }

    open spec fn from_name_spec(name: Seq<char>) -> Option<Self> {
        if name == seq!['C', 'l', 'o', 's', 'e'] {
            Some(LogAction::Close)
        } else {
            None
        }
    }

    open spec fn insert_config_param_spec(self, param: CharOrNum) -> Self {
        self
    }

    open spec fn insert_key_param_spec(self, key: Key) -> Self {
        self
    }

    open spec fn as_default_spec(self) -> Self {
        self
    }

    open spec fn default_bindings_spec() -> Map<AnyKey, Self> {
        Map::<AnyKey, Self>::empty()
            .insert(AnyKey::Key(Key::Char('l')), LogAction::Close)
    }

    fn section() -> (r: &'static str) {
        proof {
            reveal_strlit("log");
        }
        "log"
    }

    fn from_name(name: &[char]) -> (r: Option<Self>) {
        let lit = ['C', 'l', 'o', 's', 'e'];
        assert(lit@ =~= seq!['C', 'l', 'o', 's', 'e']);
        if chars_eq(name, &lit) {
            return Some(LogAction::Close);
        }
        None
    }

    fn insert_config_param(self, param: CharOrNum) -> (r: Self) {
        self
    }

    fn insert_key_param(self, key: Key) -> (r: Self) {
        self
    }

    fn as_default(self) -> (r: Self) {
        self
    }

    fn default_bindings() -> (r: Bindings<Self>) {
        let mut b = Bindings::new();
        b.insert(AnyKey::Key(Key::Char('l')), LogAction::Close);
        b
    }
}

impl Default for Bindings<LogAction> {
    fn default() -> (r: Self)
        ensures
            r@ == LogAction::default_bindings_spec(),
    {
        LogAction::default_bindings()
    }
}

/// Actions of the quick action popup.
#[derive(Copy, Clone, Debug, PartialEq, Eq, Structural)]
pub enum QuickActionAction {
    Close,
    SelectOrRun(char),
}

impl BindingSection for QuickActionAction {
    open spec fn section_spec() -> Seq<char> {
        seq!['q', 'u', 'i', 'c', 'k', 'a', 'c', 't', 'i', 'o', 'n']
    }

    open spec fn from_name_spec(name: Seq<char>) -> Option<Self> {
        if name == seq!['C', 'l', 'o', 's', 'e'] {
            Some(QuickActionAction::Close)
        } else if name == seq!['S', 'e', 'l', 'e', 'c', 't', 'O', 'r', 'R', 'u', 'n'] {
            Some(QuickActionAction::SelectOrRun('\0'))
        } else {
            None
        }
    }

    open spec fn insert_config_param_spec(self, param: CharOrNum) -> Self {
        match self {
            QuickActionAction::SelectOrRun(_) => QuickActionAction::SelectOrRun(match param {
                CharOrNum::Char(x) => x,
                _ => 'E',
            }),
            _ => self,
        }
    }

    open spec fn insert_key_param_spec(self, key: Key) -> Self {
        match (self, key) {
            (QuickActionAction::SelectOrRun(_), Key::Char(ch)) => QuickActionAction::SelectOrRun(ch),
            (QuickActionAction::SelectOrRun(_), Key::Ctrl(ch)) => QuickActionAction::SelectOrRun(ch),
            (QuickActionAction::SelectOrRun(_), Key::Alt(ch)) => QuickActionAction::SelectOrRun(ch),
            _ => self,
        }
    }

    open spec fn as_default_spec(self) -> Self {
        self
    }

    open spec fn default_bindings_spec() -> Map<AnyKey, Self> {
        Map::<AnyKey, Self>::empty()
            .insert(AnyKey::Key(Key::Char('a')), QuickActionAction::Close)
            .insert(AnyKey::AnyChar, QuickActionAction::SelectOrRun('\0'))
            .insert(AnyKey::Key(Key::Ctrl('c')), QuickActionAction::Close)
            .insert(AnyKey::Key(Key::Esc), QuickActionAction::Close)
    }

    fn section() -> (r: &'static str) {
        proof {
            reveal_strlit("quickaction");
        }
        "quickaction"
    }

    fn from_name(name: &[char]) -> (r: Option<Self>) {
        let lit = ['C', 'l', 'o', 's', 'e'];
        assert(lit@ =~= seq!['C', 'l', 'o', 's', 'e']);
        if chars_eq(name, &lit) {
            return Some(QuickActionAction::Close);
        }
        let lit = ['S', 'e', 'l', 'e', 'c', 't', 'O', 'r', 'R', 'u', 'n'];
        assert(lit@ =~= seq!['S', 'e', 'l', 'e', 'c', 't', 'O', 'r', 'R', 'u', 'n']);
        if chars_eq(name, &lit) {
            return Some(QuickActionAction::SelectOrRun('\0'));
        }
        None
    }

    fn insert_config_param(self, param: CharOrNum) -> (r: Self) {
        match self {
            QuickActionAction::SelectOrRun(_) => QuickActionAction::SelectOrRun(param.char_or('E')),
            _ => self,
        }
    }

    fn insert_key_param(self, key: Key) -> (r: Self) {
        match (self, key) {
            (QuickActionAction::SelectOrRun(_), Key::Char(ch)) => QuickActionAction::SelectOrRun(ch),
            (QuickActionAction::SelectOrRun(_), Key::Ctrl(ch)) => QuickActionAction::SelectOrRun(ch),
            (QuickActionAction::SelectOrRun(_), Key::Alt(ch)) => QuickActionAction::SelectOrRun(ch),
            _ => self,
        }
    }

    fn as_default(self) -> (r: Self) {
        self
    }

    fn default_bindings() -> (r: Bindings<Self>) {
        let mut b = Bindings::new();
        b.insert(AnyKey::Key(Key::Char('a')), QuickActionAction::Close);
        b.insert(AnyKey::AnyChar, QuickActionAction::SelectOrRun('\0'));
        b.insert(AnyKey::Key(Key::Ctrl('c')), QuickActionAction::Close);
        b.insert(AnyKey::Key(Key::Esc), QuickActionAction::Close);
        b
    }
}

impl Default for Bindings<QuickActionAction> {
    fn default() -> (r: Self)
        ensures
            r@ == QuickActionAction::default_bindings_spec(),
    {
        QuickActionAction::default_bindings()
    }
}

/// Where a key press goes in a widget: to the movement bound to the key
/// itself, which comes first, and else (where the widget has no such
/// movement) to the widget's action that the key finds.
pub fn key_targets<A: BindingSection>(movement: &Bindings<Movement>, actions: &Bindings<A>, key: Key) -> (r: (
    Option<Movement>,
    Option<A>,
))
    requires
        key_from_terminal(key),
    ensures
        r.0 == (if movement@.contains_key(AnyKey::Key(key)) {
            Some(movement@[AnyKey::Key(key)])
        } else {
            None
        }),
        r.1 == found_action(actions@, key),
{
    let m = match movement.get(AnyKey::Key(key)) {
        Some(m) => Some(*m),
        None => None,
    };
    (m, actions.find_action(key))
}

} // verus!
