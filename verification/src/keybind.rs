//! Key bindings: keys and key patterns, parsing them from the bindings
//! file, the actions of each widget, and the maps from keys to actions.
use vstd::prelude::*;
use crate::text::{
    chars_eq, chars_of, digit_value, digits_value, unsigned_digits, chars_to_string, lemma_split_nonempty, parse_char, parse_unsigned,
    parse_unsigned_chars, rfind, rfind_chars, split, split_chars, str_to_chars, sub_chars, trim,
    trim_chars, trim_end_matches, trim_end_matches_chars, trim_start_matches,
    trim_start_matches_chars,
};

verus! {

/// A key press as the terminal reports it.
#[derive(Copy, Clone, Debug, PartialEq, Eq, Hash, Structural)]
pub enum Key {
    Backspace,
    Left,
    Right,
    Up,
    Down,
    Home,
    End,
    PageUp,
    PageDown,
    BackTab,
    Delete,
    Insert,
    F(u8),
    Char(char),
    Alt(char),
    Ctrl(char),
    Null,
    Esc,
}

/// A key, or a pattern that stands for every key of a kind.
#[derive(Copy, Clone, Debug, PartialEq, Eq, Hash, Structural)]
pub enum AnyKey {
    Key(Key),
    AnyChar,
    AnyF,
    AnyCtrl,
    AnyAlt,
}

/// The pattern a key falls under, if any.
pub open spec fn any_of(k: AnyKey) -> Option<AnyKey> {
    match k {
        AnyKey::Key(Key::F(_)) => Some(AnyKey::AnyF),
        AnyKey::Key(Key::Char(_)) => Some(AnyKey::AnyChar),
        AnyKey::Key(Key::Ctrl(_)) => Some(AnyKey::AnyCtrl),
        AnyKey::Key(Key::Alt(_)) => Some(AnyKey::AnyAlt),
        _ => None,
    }
}

impl AnyKey {
    pub fn any(&self) -> (r: Option<AnyKey>)
        ensures
            r == any_of(*self),
    {
        match self {
            AnyKey::Key(Key::F(_)) => Some(AnyKey::AnyF),
            AnyKey::Key(Key::Char(_)) => Some(AnyKey::AnyChar),
            AnyKey::Key(Key::Ctrl(_)) => Some(AnyKey::AnyCtrl),
            AnyKey::Key(Key::Alt(_)) => Some(AnyKey::AnyAlt),
            _ => None,
        }
    }
}

impl From<Key> for AnyKey {
    fn from(key: Key) -> (r: AnyKey) {
        AnyKey::Key(key)
    }
}

impl vstd::std_specs::convert::FromSpecImpl<Key> for AnyKey {
    open spec fn obeys_from_spec() -> bool {
        true
    }

    open spec fn from_spec(key: Key) -> AnyKey {
        AnyKey::Key(key)
    }
}

/// What can go wrong while reading key bindings.
#[derive(Clone, Debug)]
pub enum KeyBindError {
    MovementUndefined,
    WrongKey(String, String),
    WrongAction(String),
    ParseKeyError(String),
    IniError(String),
    CharOrNumParseError(String),
    CharOrNumWrongType(String, String),
}

/// Key names that stand for themselves in the bindings file.
pub open spec fn predefined_key(k: Seq<char>) -> Option<AnyKey> {
    if k == seq!['B', 'a', 'c', 'k', 's', 'p', 'a', 'c', 'e'] {
        Some(AnyKey::Key(Key::Backspace))
    } else if k == seq!['L', 'e', 'f', 't'] {
        Some(AnyKey::Key(Key::Left))
    } else if k == seq!['R', 'i', 'g', 'h', 't'] {
        Some(AnyKey::Key(Key::Right))
    } else if k == seq!['U', 'p'] {
        Some(AnyKey::Key(Key::Up))
    } else if k == seq!['D', 'o', 'w', 'n'] {
        Some(AnyKey::Key(Key::Down))
    } else if k == seq!['H', 'o', 'm', 'e'] {
        Some(AnyKey::Key(Key::Home))
    } else if k == seq!['E', 'n', 'd'] {
        Some(AnyKey::Key(Key::End))
    } else if k == seq!['P', 'a', 'g', 'e', 'U', 'p'] {
        Some(AnyKey::Key(Key::PageUp))
    } else if k == seq!['P', 'a', 'g', 'e', 'D', 'o', 'w', 'n'] {
        Some(AnyKey::Key(Key::PageDown))
    } else if k == seq!['D', 'e', 'l', 'e', 't', 'e'] {
        Some(AnyKey::Key(Key::Delete))
    } else if k == seq!['I', 'n', 's', 'e', 'r', 't'] {
        Some(AnyKey::Key(Key::Insert))
    } else if k == seq!['T', 'a', 'b'] {
        Some(AnyKey::Key(Key::Char('\t')))
    } else if k == seq!['B', 'a', 'c', 'k', 'T', 'a', 'b'] {
        Some(AnyKey::Key(Key::BackTab))
    } else if k == seq!['E', 'n', 't', 'e', 'r'] {
        Some(AnyKey::Key(Key::Char('\n')))
    } else if k == seq!['S', 'p', 'a', 'c', 'e'] {
        Some(AnyKey::Key(Key::Char(' ')))
    } else if k == seq!['\\', '_'] {
        Some(AnyKey::Key(Key::Char('_')))
    } else if k == seq!['_'] {
        Some(AnyKey::AnyChar)
    } else if k == seq!['E', 's', 'c'] {
        Some(AnyKey::Key(Key::Esc))
    } else {
        None
    }
}

/// The name a key goes by in the bindings file where it has a name of its
/// own: the special keys by their names, and tab, enter, space and the
/// underscore by `Tab`, `Enter`, `Space` and `\_`.
pub open spec fn key_name(k: Key) -> Option<Seq<char>> {
    match k {
        Key::Backspace => Some(seq!['B', 'a', 'c', 'k', 's', 'p', 'a', 'c', 'e']),
        Key::Left => Some(seq!['L', 'e', 'f', 't']),
        Key::Right => Some(seq!['R', 'i', 'g', 'h', 't']),
        Key::Up => Some(seq!['U', 'p']),
        Key::Down => Some(seq!['D', 'o', 'w', 'n']),
        Key::Home => Some(seq!['H', 'o', 'm', 'e']),
        Key::End => Some(seq!['E', 'n', 'd']),
        Key::PageUp => Some(seq!['P', 'a', 'g', 'e', 'U', 'p']),
        Key::PageDown => Some(seq!['P', 'a', 'g', 'e', 'D', 'o', 'w', 'n']),
        Key::Delete => Some(seq!['D', 'e', 'l', 'e', 't', 'e']),
        Key::Insert => Some(seq!['I', 'n', 's', 'e', 'r', 't']),
        Key::BackTab => Some(seq!['B', 'a', 'c', 'k', 'T', 'a', 'b']),
        Key::Esc => Some(seq!['E', 's', 'c']),
        Key::Char(c) => if c == '\t' {
            Some(seq!['T', 'a', 'b'])
        } else if c == '\n' {
            Some(seq!['E', 'n', 't', 'e', 'r'])
        } else if c == ' ' {
            Some(seq!['S', 'p', 'a', 'c', 'e'])
        } else if c == '_' {
            Some(seq!['\\', '_'])
        } else {
            None
        },
        _ => None,
    }
}

/// A key's name in the bindings file reads back as that key.
pub proof fn lemma_key_name_parses(k: Key)
    ensures
        key_name(k) matches Some(n) ==> predefined_key(n) == Some(AnyKey::Key(k)),
{
}

/// Two key names never stand for the same key: a key name read back is
/// the one name of its key.
pub proof fn lemma_predefined_keys_distinct(a: Seq<char>, b: Seq<char>)
    ensures
        predefined_key(a) is Some && predefined_key(a) == predefined_key(b) ==> a == b,
{
}

fn predefined_key_exec(k: &[char]) -> (r: Option<AnyKey>)
    ensures
        r == predefined_key(k@),
{
    let lit = ['B', 'a', 'c', 'k', 's', 'p', 'a', 'c', 'e'];
    assert(lit@ =~= seq!['B', 'a', 'c', 'k', 's', 'p', 'a', 'c', 'e']);
    if chars_eq(k, &lit) {
        return Some(AnyKey::Key(Key::Backspace));
    }
    let lit = ['L', 'e', 'f', 't'];
    assert(lit@ =~= seq!['L', 'e', 'f', 't']);
    if chars_eq(k, &lit) {
        return Some(AnyKey::Key(Key::Left));
    }
    let lit = ['R', 'i', 'g', 'h', 't'];
    assert(lit@ =~= seq!['R', 'i', 'g', 'h', 't']);
    if chars_eq(k, &lit) {
        return Some(AnyKey::Key(Key::Right));
    }
    let lit = ['U', 'p'];
    assert(lit@ =~= seq!['U', 'p']);
    if chars_eq(k, &lit) {
        return Some(AnyKey::Key(Key::Up));
    }
    let lit = ['D', 'o', 'w', 'n'];
    assert(lit@ =~= seq!['D', 'o', 'w', 'n']);
    if chars_eq(k, &lit) {
        return Some(AnyKey::Key(Key::Down));
    }
    let lit = ['H', 'o', 'm', 'e'];
    assert(lit@ =~= seq!['H', 'o', 'm', 'e']);
    if chars_eq(k, &lit) {
        return Some(AnyKey::Key(Key::Home));
    }
    let lit = ['E', 'n', 'd'];
    assert(lit@ =~= seq!['E', 'n', 'd']);
    if chars_eq(k, &lit) {
        return Some(AnyKey::Key(Key::End));
    }
    let lit = ['P', 'a', 'g', 'e', 'U', 'p'];
    assert(lit@ =~= seq!['P', 'a', 'g', 'e', 'U', 'p']);
    if chars_eq(k, &lit) {
        return Some(AnyKey::Key(Key::PageUp));
    }
    let lit = ['P', 'a', 'g', 'e', 'D', 'o', 'w', 'n'];
    assert(lit@ =~= seq!['P', 'a', 'g', 'e', 'D', 'o', 'w', 'n']);
    if chars_eq(k, &lit) {
        return Some(AnyKey::Key(Key::PageDown));
    }
    let lit = ['D', 'e', 'l', 'e', 't', 'e'];
    assert(lit@ =~= seq!['D', 'e', 'l', 'e', 't', 'e']);
    if chars_eq(k, &lit) {
        return Some(AnyKey::Key(Key::Delete));
    }
    let lit = ['I', 'n', 's', 'e', 'r', 't'];
    assert(lit@ =~= seq!['I', 'n', 's', 'e', 'r', 't']);
    if chars_eq(k, &lit) {
        return Some(AnyKey::Key(Key::Insert));
    }
    let lit = ['T', 'a', 'b'];
    assert(lit@ =~= seq!['T', 'a', 'b']);
    if chars_eq(k, &lit) {
        return Some(AnyKey::Key(Key::Char('\t')));
    }
    let lit = ['B', 'a', 'c', 'k', 'T', 'a', 'b'];
    assert(lit@ =~= seq!['B', 'a', 'c', 'k', 'T', 'a', 'b']);
    if chars_eq(k, &lit) {
        return Some(AnyKey::Key(Key::BackTab));
    }
    let lit = ['E', 'n', 't', 'e', 'r'];
    assert(lit@ =~= seq!['E', 'n', 't', 'e', 'r']);
    if chars_eq(k, &lit) {
        return Some(AnyKey::Key(Key::Char('\n')));
    }
    let lit = ['S', 'p', 'a', 'c', 'e'];
    assert(lit@ =~= seq!['S', 'p', 'a', 'c', 'e']);
    if chars_eq(k, &lit) {
        return Some(AnyKey::Key(Key::Char(' ')));
    }
    let lit = ['\\', '_'];
    assert(lit@ =~= seq!['\\', '_']);
    if chars_eq(k, &lit) {
        return Some(AnyKey::Key(Key::Char('_')));
    }
    let lit = ['_'];
    assert(lit@ =~= seq!['_']);
    if chars_eq(k, &lit) {
        return Some(AnyKey::AnyChar);
    }
    let lit = ['E', 's', 'c'];
    assert(lit@ =~= seq!['E', 's', 'c']);
    if chars_eq(k, &lit) {
        return Some(AnyKey::Key(Key::Esc));
    }
    None
}

/// The key that a modifier letter and a key character stand for: a bare
/// character, `C-x` for Ctrl, `A-x` or `M-x` for Alt, `_` for "any" of each kind.
pub open spec fn modified_key(modifier: Option<char>, key: Option<char>) -> Option<AnyKey> {
    match (modifier, key) {
        (Some(ch), None) => if ch == '_' {
            Some(AnyKey::AnyChar)
        } else {
            Some(AnyKey::Key(Key::Char(ch)))
        },
        (Some(m), Some(ch)) => if m == 'C' {
            if ch == '_' {
                Some(AnyKey::AnyCtrl)
            } else {
                Some(AnyKey::Key(Key::Ctrl(ch)))
            }
        } else if m == 'A' || m == 'M' {
            if ch == '_' {
                Some(AnyKey::AnyAlt)
            } else {
                Some(AnyKey::Key(Key::Alt(ch)))
            }
        } else {
            None
        },
        _ => None,
    }
}

/// What a key name in the bindings file stands for. A two-byte name that
/// starts with `F` is a function key (`F_` for any), a single character is
/// that character, and otherwise the name is split at `-` into a modifier
/// and a character.
pub open spec fn spec_parse_any_key(k: Seq<char>) -> Option<AnyKey> {
    match predefined_key(k) {
        Some(key) => Some(key),
        None => if k.len() == 2 && k[0] == 'F' && (k[1] as u32) < 128 {
            if k[1] == '_' {
                Some(AnyKey::AnyF)
            } else {
                match parse_unsigned(k.subrange(1, 2), 255) {
                    Some(n) => Some(AnyKey::Key(Key::F(n as u8))),
                    None => None,
                }
            }
        } else if parse_char(k) is Some {
            Some(AnyKey::Key(Key::Char(k[0])))
        } else {
            let parts = split(k, '-');
            if parts.len() > 2 {
                None
            } else {
                modified_key(
                    parse_char(parts[0]),
                    if parts.len() >= 2 { parse_char(parts[1]) } else { None },
                )
            }
        },
    }
}

proof fn lemma_split_three(x: char, ch: char)
    ensures
        ch != '-' && x != '-' ==> split(seq![x, '-', ch], '-') =~= seq![seq![x], seq![ch]],
        ch == '-' && x != '-' ==> split(seq![x, '-', ch], '-').len() == 3,
{
    let s = seq![x, '-', ch];
    assert(s.drop_last() =~= seq![x, '-']);
    assert(s.drop_last().drop_last() =~= seq![x]);
    assert(s.drop_last().drop_last().drop_last() =~= Seq::<char>::empty());
    assert(split(Seq::<char>::empty(), '-') == seq![Seq::<char>::empty()]);
    if x != '-' {
        assert(split(seq![x], '-') =~= seq![seq![x]]) by {
            assert(seq![x].drop_last() =~= Seq::<char>::empty());
            assert(Seq::<char>::empty().push(x) =~= seq![x]);
        }
        assert(split(seq![x, '-'], '-') =~= seq![seq![x], Seq::<char>::empty()]);
        if ch != '-' {
            assert(Seq::<char>::empty().push(ch) =~= seq![ch]);
        }
    }
}

/// Alt is written `M-` or `A-` alike: with either prefix, a key name stands
/// for the same key.
pub proof fn lemma_alt_prefixes(ch: char)
    ensures
        spec_parse_any_key(seq!['M', '-', ch]) == spec_parse_any_key(seq!['A', '-', ch]),
{
    let m = seq!['M', '-', ch];
    let a = seq!['A', '-', ch];
    assert(m.len() == 3 && m[0] == 'M' && m[1] == '-');
    assert(a.len() == 3 && a[0] == 'A' && a[1] == '-');
    assert(predefined_key(m) is None) by {
        assert(m != seq!['E', 'n', 'd']) by {
            assert(seq!['E', 'n', 'd'][0] == 'E');
        }
        assert(m != seq!['T', 'a', 'b']) by {
            assert(seq!['T', 'a', 'b'][0] == 'T');
        }
        assert(m != seq!['E', 's', 'c']) by {
            assert(seq!['E', 's', 'c'][0] == 'E');
        }
    }
    assert(predefined_key(a) is None) by {
        assert(a != seq!['E', 'n', 'd']) by {
            assert(seq!['E', 'n', 'd'][0] == 'E');
        }
        assert(a != seq!['T', 'a', 'b']) by {
            assert(seq!['T', 'a', 'b'][0] == 'T');
        }
        assert(a != seq!['E', 's', 'c']) by {
            assert(seq!['E', 's', 'c'][0] == 'E');
        }
    }
    lemma_split_three('M', ch);
    lemma_split_three('A', ch);
    if ch != '-' {
        assert(split(m, '-')[0] =~= seq!['M']);
        assert(split(a, '-')[0] =~= seq!['A']);
        assert(split(m, '-')[1] =~= seq![ch]);
        assert(split(a, '-')[1] =~= seq![ch]);
    }
}

/// `C-x` stands for Ctrl with `x` and `M-x` for Alt with `x` (`_` for any
/// such key), and a single character other than `_` for that character.
pub proof fn lemma_modifier_keys(ch: char)
    ensures
        ch != '-' ==> spec_parse_any_key(seq!['C', '-', ch]) == Some(
            if ch == '_' {
                AnyKey::AnyCtrl
            } else {
                AnyKey::Key(Key::Ctrl(ch))
            },
        ),
        ch != '-' ==> spec_parse_any_key(seq!['M', '-', ch]) == Some(
            if ch == '_' {
                AnyKey::AnyAlt
            } else {
                AnyKey::Key(Key::Alt(ch))
            },
        ),
        ch != '_' ==> spec_parse_any_key(seq![ch]) == Some(AnyKey::Key(Key::Char(ch))),
{
    let c = seq!['C', '-', ch];
    let m = seq!['M', '-', ch];
    assert(c.len() == 3 && c[0] == 'C' && c[1] == '-');
    assert(m.len() == 3 && m[0] == 'M' && m[1] == '-');
    assert(predefined_key(c) is None) by {
        assert(c != seq!['E', 'n', 'd']) by {
            assert(seq!['E', 'n', 'd'][0] == 'E');
        }
        assert(c != seq!['T', 'a', 'b']) by {
            assert(seq!['T', 'a', 'b'][0] == 'T');
        }
        assert(c != seq!['E', 's', 'c']) by {
            assert(seq!['E', 's', 'c'][0] == 'E');
        }
    }
    assert(predefined_key(m) is None) by {
        assert(m != seq!['E', 'n', 'd']) by {
            assert(seq!['E', 'n', 'd'][0] == 'E');
        }
        assert(m != seq!['T', 'a', 'b']) by {
            assert(seq!['T', 'a', 'b'][0] == 'T');
        }
        assert(m != seq!['E', 's', 'c']) by {
            assert(seq!['E', 's', 'c'][0] == 'E');
        }
    }
    lemma_split_three('C', ch);
    lemma_split_three('M', ch);
    if ch != '-' {
        assert(split(c, '-')[0] =~= seq!['C']);
        assert(split(m, '-')[0] =~= seq!['M']);
        assert(split(c, '-')[1] =~= seq![ch]);
        assert(split(m, '-')[1] =~= seq![ch]);
    }
    let one = seq![ch];
    assert(one.len() == 1 && one[0] == ch);
    if ch != '_' {
        assert(one != seq!['_']) by {
            assert(seq!['_'][0] == '_');
        }
    }
}

/// `F` and a digit stands for the function key of that number, `F_` for any
/// function key.
pub proof fn lemma_function_keys(d: char)
    ensures
        '0' <= d <= '9' ==> spec_parse_any_key(seq!['F', d]) == Some(AnyKey::Key(Key::F((d as int - '0' as int) as u8))),
        spec_parse_any_key(seq!['F', '_']) == Some(AnyKey::AnyF),
{
    let f = seq!['F', d];
    assert(f.len() == 2 && f[0] == 'F' && f[1] == d);
    assert(predefined_key(f) is None) by {
        assert(f != seq!['U', 'p']) by {
            assert(seq!['U', 'p'][0] == 'U');
        }
    }
    let u = seq!['F', '_'];
    assert(u.len() == 2 && u[0] == 'F' && u[1] == '_');
    assert(predefined_key(u) is None) by {
        assert(u != seq!['U', 'p']) by {
            assert(seq!['U', 'p'][0] == 'U');
        }
    }
    if '0' <= d <= '9' {
        let digit = f.subrange(1, 2);
        assert(digit =~= seq![d]);
        assert(unsigned_digits(digit) =~= seq![d]);
        assert(seq![d].drop_last() =~= Seq::<char>::empty());
        assert(digits_value(Seq::<char>::empty()) == 0);
        assert(seq![d].last() == d);
        assert(digits_value(seq![d]) == digits_value(seq![d].drop_last()) * 10 + digit_value(d));
        assert(digits_value(seq![d]) == d as int - '0' as int);
    }
}

/// Parses a key name of the bindings file, such as `C-a`, `A-_`, `Delete` or `F9`.
pub fn parse_any_key(key: &str) -> (r: Result<AnyKey, KeyBindError>)
    ensures
        r matches Ok(k) ==> spec_parse_any_key(key@) == Some(k),
        r matches Err(e) ==> spec_parse_any_key(key@) is None && (e matches KeyBindError::ParseKeyError(s) && s@ == key@),
{
    let k = str_to_chars(key);
    if let Some(p) = predefined_key_exec(&k) {
        return Ok(p);
    }
    if k.len() == 2 && k[0] == 'F' && (k[1] as u32) < 128 {
        if k[1] == '_' {
            return Ok(AnyKey::AnyF);
        }
        let digit = sub_chars(&k, 1, 2);
        return match parse_unsigned_chars(&digit, 255) {
            Some(n) => Ok(AnyKey::Key(Key::F(n as u8))),
            None => Err(KeyBindError::ParseKeyError(key.to_owned())),
        };
    }
    if k.len() == 1 {
        return Ok(AnyKey::Key(Key::Char(k[0])));
    }
    let parts = split_chars(&k, '-');
    proof { lemma_split_nonempty(k@, '-'); }
    assert(chars_of(parts@).len() == parts@.len());
    if parts.len() > 2 {
        return Err(KeyBindError::ParseKeyError(key.to_owned()));
    }
    assert(parts@[0]@ == split(k@, '-')[0]);
    let modifier: Option<char> = if parts[0].len() == 1 { Some(parts[0][0]) } else { None };
    let maybe_key: Option<char> = if parts.len() >= 2 {
        assert(parts@[1]@ == split(k@, '-')[1]);
        if parts[1].len() == 1 { Some(parts[1][0]) } else { None }
    } else {
        None
    };
    match (modifier, maybe_key) {
        (Some(ch), None) => if ch == '_' {
            Ok(AnyKey::AnyChar)
        } else {
            Ok(AnyKey::Key(Key::Char(ch)))
        },
        (Some(m), Some(ch)) => if m == 'C' {
            if ch == '_' {
                Ok(AnyKey::AnyCtrl)
            } else {
                Ok(AnyKey::Key(Key::Ctrl(ch)))
            }
        } else if m == 'A' || m == 'M' {
            if ch == '_' {
                Ok(AnyKey::AnyAlt)
            } else {
                Ok(AnyKey::Key(Key::Alt(ch)))
            }
        } else {
            Err(KeyBindError::ParseKeyError(key.to_owned()))
        },
        _ => Err(KeyBindError::ParseKeyError(key.to_owned())),
    }
}

impl std::str::FromStr for AnyKey {
    type Err = KeyBindError;

    /// Parses a key name (see `spec_parse_any_key`).
    fn from_str(key: &str) -> (r: Result<AnyKey, KeyBindError>)
        ensures
            r matches Ok(k) ==> spec_parse_any_key(key@) == Some(k),
            r matches Err(e) ==> spec_parse_any_key(key@) is None && (e matches KeyBindError::ParseKeyError(s) && s@ == key@),
    {
        parse_any_key(key)
    }
}

} // verus!

verus! {

/// A parameter given to an action in the bindings file, such as the `10` in
/// `Up(10)`: a character, a number, or `_` for "whatever the key was".
#[derive(Copy, Clone, Debug, PartialEq, Eq, Structural)]
pub enum CharOrNum {
    Char(char),
    Num(usize),
    Any,
}

/// What a parameter text stands for, once its enclosing parentheses are
/// trimmed: `_`, a number, or a single character; otherwise the trimmed text
/// is the error.
pub open spec fn spec_parse_char_or_num(s: Seq<char>) -> Result<CharOrNum, Seq<char>> {
    let t = trim_end_matches(trim_start_matches(s, '('), ')');
    if t == seq!['_'] {
        Ok(CharOrNum::Any)
    } else {
        match parse_unsigned(t, usize::MAX as int) {
            Some(n) => Ok(CharOrNum::Num(n as usize)),
            None => match parse_char(t) {
                Some(c) => Ok(CharOrNum::Char(c)),
                None => Err(t),
            },
        }
    }
}

/// Parses an action parameter.
pub fn parse_char_or_num(s: &[char]) -> (r: Result<CharOrNum, KeyBindError>)
    ensures
        r matches Ok(v) ==> spec_parse_char_or_num(s@) == Ok::<CharOrNum, Seq<char>>(v),
        r matches Err(e) ==> spec_parse_char_or_num(s@) is Err && (e matches KeyBindError::CharOrNumParseError(t)
            && spec_parse_char_or_num(s@) == Err::<CharOrNum, Seq<char>>(t@)),
{
    let a = trim_start_matches_chars(s, '(');
    let t = trim_end_matches_chars(&a, ')');
    let lit = ['_'];
    assert(lit@ =~= seq!['_']);
    if chars_eq(&t, &lit) {
        return Ok(CharOrNum::Any);
    }
    match parse_unsigned_chars(&t, usize::MAX) {
        Some(n) => Ok(CharOrNum::Num(n)),
        None => if t.len() == 1 {
            Ok(CharOrNum::Char(t[0]))
        } else {
            Err(KeyBindError::CharOrNumParseError(chars_to_string(&t)))
        },
    }
}

impl std::str::FromStr for CharOrNum {
    type Err = KeyBindError;

    /// Parses an action parameter (see `spec_parse_char_or_num`).
    fn from_str(s: &str) -> (r: Result<CharOrNum, KeyBindError>)
        ensures
            r matches Ok(v) ==> spec_parse_char_or_num(s@) == Ok::<CharOrNum, Seq<char>>(v),
            r matches Err(e) ==> spec_parse_char_or_num(s@) is Err && (e matches KeyBindError::CharOrNumParseError(t)
                && spec_parse_char_or_num(s@) == Err::<CharOrNum, Seq<char>>(t@)),
    {
        let chars = str_to_chars(s);
        parse_char_or_num(&chars)
    }
}

impl CharOrNum {
    /// The character this parameter holds; `default` for `_` or a number
    /// (a number is the wrong kind of parameter for a character action).
    pub fn char_or(self, default: char) -> (r: char)
        ensures
            r == (match self {
                CharOrNum::Char(ch) => ch,
                _ => default,
            }),
    {
        match self {
            CharOrNum::Char(ch) => ch,
            _ => default,
        }
    }

    /// The number this parameter holds; `default` for `_` or a character.
    pub fn num_or(self, default: usize) -> (r: usize)
        ensures
            r == (match self {
                CharOrNum::Num(n) => n,
                _ => default,
            }),
    {
        match self {
            CharOrNum::Num(n) => n,
            _ => default,
        }
    }
}

/// A key as the terminal can report it: function keys are numbered from 1.
pub open spec fn key_from_terminal(k: Key) -> bool {
    k matches Key::F(n) ==> n >= 1
}

/// The action a key press finds among `bindings`: the action bound to the
/// key itself, or else the action bound to the key's kind (any character,
/// any function key, ...) with its parameter taken from the key.
pub open spec fn found_action<T: BindingSection>(bindings: Map<AnyKey, T>, key: Key) -> Option<T> {
    if bindings.contains_key(AnyKey::Key(key)) {
        Some(bindings[AnyKey::Key(key)])
    } else {
        match any_of(AnyKey::Key(key)) {
            Some(any) => if bindings.contains_key(any) {
                Some(bindings[any].insert_key_param_spec(key))
            } else {
                None
            },
            None => None,
        }
    }
}

/// The actions of one widget, as one section of the bindings file names them.
pub trait BindingSection: Sized + Copy {
    /// Name of the section in the bindings file.
    spec fn section_spec() -> Seq<char>;

    /// The action an action name stands for; parameters take their type's default.
    spec fn from_name_spec(name: Seq<char>) -> Option<Self>;

    /// The action with a parameter from the bindings file, like the `10` of `Up(10)`.
    spec fn insert_config_param_spec(self, param: CharOrNum) -> Self;

    /// The action with a parameter taken from the key that triggered it.
    spec fn insert_key_param_spec(self, key: Key) -> Self;

    /// The action with its usual parameter, where the bindings file gives none.
    spec fn as_default_spec(self) -> Self;

    /// The bindings a widget has when the bindings file does not set them.
    spec fn default_bindings_spec() -> Map<AnyKey, Self>;

    fn section() -> (r: &'static str)
        ensures
            r@ == Self::section_spec(),
    ;

    fn from_name(name: &[char]) -> (r: Option<Self>)
        ensures
            r == Self::from_name_spec(name@),
    ;

    fn insert_config_param(self, param: CharOrNum) -> (r: Self)
        ensures
            r == self.insert_config_param_spec(param),
    ;

    fn insert_key_param(self, key: Key) -> (r: Self)
        requires
            key_from_terminal(key),
        ensures
            r == self.insert_key_param_spec(key),
    ;

    fn as_default(self) -> (r: Self)
        ensures
            r == self.as_default_spec(),
    ;

    fn default_bindings() -> (r: Bindings<Self>)
        ensures
            r@ == Self::default_bindings_spec(),
    ;
}

/// The keys of a list of key/value entries.
pub open spec fn keys_of<T>(s: Seq<(AnyKey, T)>) -> Seq<AnyKey> {
    s.map_values(|e: (AnyKey, T)| e.0)
}

/// A map from keys to actions; a key maps to at most one action.
#[derive(Debug)]
pub struct Bindings<T> {
    entries: Vec<(AnyKey, T)>,
}

impl<T> View for Bindings<T> {
    type V = Map<AnyKey, T>;

    closed spec fn view(&self) -> Map<AnyKey, T> {
        let keys = keys_of(self.entries@);
        Map::new(|k: AnyKey| keys.contains(k), |k: AnyKey| self.entries@[keys.index_of(k)].1)
    }
}

proof fn lemma_index_of_unique<A>(s: Seq<A>, i: int)
    requires
        s.no_duplicates(),
        0 <= i < s.len(),
    ensures
        s.index_of(s[i]) == i,
{
    assert(s.contains(s[i]));
    let j = s.index_of(s[i]);
    assert(0 <= j < s.len() && s[j] == s[i]);
}

impl<T: Copy> Clone for Bindings<T> {
    fn clone(&self) -> (r: Self)
        ensures
            r@ == self@,
    {
        proof { use_type_invariant(self); }
        let mut entries: Vec<(AnyKey, T)> = Vec::new();
        let mut i: usize = 0;
        while i < self.entries.len()
            invariant
                i <= self.entries@.len(),
                entries@ == self.entries@.take(i as int),
            decreases self.entries.len() - i,
        {
            entries.push(self.entries[i]);
            i += 1;
            assert(entries@ =~= self.entries@.take(i as int));
        }
        assert(entries@ =~= self.entries@);
        Bindings { entries }
    }
}

impl<T> Bindings<T> {
    #[verifier::type_invariant]
    closed spec fn keys_unique(&self) -> bool {
        keys_of(self.entries@).no_duplicates()
    }

    pub fn new() -> (r: Bindings<T>)
        ensures
            r@ == Map::<AnyKey, T>::empty(),
    {
        let r = Bindings { entries: Vec::new() };
        assert(r@ =~= Map::<AnyKey, T>::empty());
        r
    }

    fn position(&self, key: AnyKey) -> (r: Option<usize>)
        ensures
            r matches Some(i) ==> i < self.entries@.len() && self.entries@[i as int].0 == key
                && self@.contains_key(key) && self@[key] == self.entries@[i as int].1,
            r is None ==> !self@.contains_key(key),
    {
        proof { use_type_invariant(self); }
        let ghost keys = keys_of(self.entries@);
        let mut i: usize = 0;
        while i < self.entries.len()
            invariant
                i <= self.entries@.len(),
                keys == keys_of(self.entries@),
                keys.no_duplicates(),
                forall|j: int| 0 <= j < i ==> keys[j] != key,
            decreases self.entries.len() - i,
        {
            if self.entries[i].0 == key {
                proof { lemma_index_of_unique(keys, i as int); }
                return Some(i);
            }
            i += 1;
        }
        None
    }

    /// The action bound to `key`.
    pub fn get(&self, key: AnyKey) -> (r: Option<&T>)
        ensures
            r matches Some(v) ==> self@.contains_key(key) && *v == self@[key],
            r is None ==> !self@.contains_key(key),
    {
        match self.position(key) {
            Some(i) => Some(&self.entries[i].1),
            None => None,
        }
    }

    /// Binds `key` to `value`, giving back what it was bound to before.
    pub fn insert(&mut self, key: AnyKey, value: T) -> (r: Option<T>)
        where T: Copy
        ensures
            final(self)@ == old(self)@.insert(key, value),
            r == (if old(self)@.contains_key(key) { Some(old(self)@[key]) } else { None::<T> }),
    {
        proof { use_type_invariant(&*self); }
        let ghost old_entries = self.entries@;
        match self.position(key) {
            Some(i) => {
                let prev = self.entries[i].1;
                let mut entries: Vec<(AnyKey, T)> = Vec::new();
                std::mem::swap(&mut entries, &mut self.entries);
                entries.set(i, (key, value));
                proof {
                    assert(keys_of(entries@) =~= keys_of(old_entries));
                }
                self.entries = entries;
                proof {
                    let keys = keys_of(self.entries@);
                    assert(keys =~= keys_of(old_entries));
                    assert forall|k: AnyKey| #[trigger] self@.contains_key(k) implies self@[k] == old(self)@.insert(key, value)[k] by {
                        if k != key {
                            let j = keys.index_of(k);
                            assert(0 <= j < keys.len() && keys[j] == k);
                            assert(keys[i as int] == key);
                            assert(j != i);
                            assert(self.entries@[j] == old_entries[j]);
                        }
                    }
                    assert(self@ =~= old(self)@.insert(key, value));
                }
                Some(prev)
            },
            None => {
                let mut entries: Vec<(AnyKey, T)> = Vec::new();
                std::mem::swap(&mut entries, &mut self.entries);
                entries.push((key, value));
                proof {
                    let keys = keys_of(entries@);
                    let okeys = keys_of(old_entries);
                    assert(keys =~= okeys.push(key));
                    assert(!okeys.contains(key));
                    assert(keys.no_duplicates()) by {
                        assert forall|a: int, b: int| 0 <= a < keys.len() && 0 <= b < keys.len() && a != b implies keys[a] != keys[b] by {
                            if a < okeys.len() && b < okeys.len() {
                                assert(okeys[a] != okeys[b]);
                            } else if a == okeys.len() {
                                assert(okeys[b] != key);
                            } else {
                                assert(okeys[a] != key);
                            }
                        }
                    }
                }
                self.entries = entries;
                proof {
                    let keys = keys_of(self.entries@);
                    let okeys = keys_of(old_entries);
                    assert(keys =~= okeys.push(key));
                    assert(!okeys.contains(key));
                    assert(keys.no_duplicates()) by {
                        assert forall|a: int, b: int| 0 <= a < keys.len() && 0 <= b < keys.len() && a != b implies keys[a] != keys[b] by {
                            if a < okeys.len() && b < okeys.len() {
                                assert(okeys[a] != okeys[b]);
                            } else if a == okeys.len() {
                                assert(okeys[b] != key);
                            } else {
                                assert(okeys[a] != key);
                            }
                        }
                    }
                    lemma_index_of_unique(keys, okeys.len() as int);
                    assert forall|k: AnyKey| #[trigger] self@.contains_key(k) implies self@[k] == old(self)@.insert(key, value)[k] by {
                        if k != key {
                            let j = keys.index_of(k);
                            assert(0 <= j < keys.len() && keys[j] == k);
                            assert(j < okeys.len());
                            assert(okeys.contains(k));
                            let oj = okeys.index_of(k);
                            assert(0 <= oj < okeys.len() && okeys[oj] == k);
                            lemma_index_of_unique(okeys, oj);
                            lemma_index_of_unique(keys, oj);
                        }
                    }
                    assert forall|k: AnyKey| #[trigger] old(self)@.insert(key, value).contains_key(k) implies self@.contains_key(k) by {
                        if k != key {
                            let oj = okeys.index_of(k);
                            assert(keys[oj] == k);
                        } else {
                            assert(keys[okeys.len() as int] == key);
                        }
                    }
                    assert(self@ =~= old(self)@.insert(key, value));
                }
                None
            },
        }
    }

    /// The action a key press triggers: the action bound to the key itself,
    /// or else the action bound to the key's kind (any character, any
    /// function key, ...) with its parameter taken from the key.
    pub fn find_action(&self, key: Key) -> (r: Option<T>)
        where T: BindingSection
        requires
            key_from_terminal(key),
        ensures
            r == found_action(self@, key),
    {
        let gkey = AnyKey::Key(key);
        match self.get(gkey) {
            Some(action) => Some(*action),
            None => match gkey.any() {
                Some(any_key) => match self.get(any_key) {
                    Some(action) => Some(action.insert_key_param(key)),
                    None => None,
                },
                None => None,
            },
        }
    }
}

} // verus!
