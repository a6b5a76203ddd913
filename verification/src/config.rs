//! The settings file: `key=value` lines that switch options on and off, name
//! the external commands, set the column ratios and the graphics mode. The
//! command line overrides what the file says.
use vstd::prelude::*;
use crate::bindings_file::{ini_document, KeyBinds};
use crate::text::{
    all_digits, chars_of, chars_to_string, char_is_whitespace, is_digit, is_whitespace, is_word,
    lemma_split_any_nonempty, lemma_split_nonempty, lines, lines_chars, parse_unsigned,
    parse_unsigned_chars, split, split_any, split_any_chars, split_chars, str_to_chars, trim,
    trim_chars,
};

verus! {

/// Options given on the command line; `None` where the option was not given.
#[derive(Clone, Debug)]
pub struct ArgvConfig {
    pub animation: Option<bool>,
    pub show_hidden: Option<bool>,
    pub icons: Option<bool>,
    pub graphics: Option<String>,
}

impl ArgvConfig {
    pub fn new() -> (r: ArgvConfig)
        ensures
            r.animation is None,
            r.show_hidden is None,
            r.icons is None,
            r.graphics is None,
    {
        ArgvConfig { animation: None, show_hidden: None, icons: None, graphics: None }
    }
}

/// The graphics mode that suits the terminal named `term` (the value of `TERM`).
pub open spec fn g_mode(term: Seq<char>) -> Seq<char> {
    if term == "xterm-kitty"@ {
        "kitty"@
    } else if term == "xterm"@ {
        "sixel"@
    } else {
        "unicode"@
    }
}

/// Picks the graphics mode for the terminal named `term`: kitty's protocol in
/// kitty, sixel in xterm, and unicode half blocks elsewhere.
pub fn detect_g_mode(term: &str) -> (r: String)
    ensures
        r@ == g_mode(term@),
{
    let t = str_to_chars(term);
    if is_word(&t, "xterm-kitty") {
        String::from_str("kitty")
    } else if is_word(&t, "xterm") {
        String::from_str("sixel")
    } else {
        String::from_str("unicode")
    }
}

/// The command line options as flags: `-a` turns animation off, `-h` shows
/// hidden files, `-i` shows icons, and a graphics mode of `auto` is detected
/// from the terminal's name `term`.
pub fn argv_config_from_flags(
    animation_off: bool,
    show_hidden: bool,
    icons: bool,
    graphics: Option<&str>,
    term: &str,
) -> (r: ArgvConfig)
    ensures
        r.animation == (if animation_off { Some(false) } else { None::<bool> }),
        r.show_hidden == (if show_hidden { Some(true) } else { None::<bool> }),
        r.icons == (if icons { Some(true) } else { None::<bool> }),
        match graphics {
            None => r.graphics is None,
            Some(m) => r.graphics matches Some(g) && g@ == (if m@ == "auto"@ {
                g_mode(term@)
            } else {
                m@
            }),
        },
{
    let mut config = ArgvConfig::new();
    if animation_off {
        config.animation = Some(false);
    }
    if show_hidden {
        config.show_hidden = Some(true);
    }
    if icons {
        config.icons = Some(true);
    }
    match graphics {
        Some(mode) => {
            let m = str_to_chars(mode);
            if is_word(&m, "auto") {
                config.graphics = Some(detect_g_mode(term));
            } else {
                config.graphics = Some(String::from_str(mode));
            }
        },
        None => {},
    }
    config
}

/// What the settings say, as plain values.
pub struct Settings {
    pub animation: bool,
    pub animation_refresh_frequency: usize,
    pub show_hidden: bool,
    pub select_cmd: Seq<char>,
    pub cd_cmd: Seq<char>,
    pub icons: bool,
    pub icons_space: bool,
    pub media_autoplay: bool,
    pub media_mute: bool,
    pub media_previewer: Seq<char>,
    pub ratios: Seq<usize>,
    pub graphics: Seq<char>,
}

/// The program's settings.
#[derive(Clone, Debug)]
pub struct Config {
    pub animation: bool,
    pub animation_refresh_frequency: usize,
    pub show_hidden: bool,
    pub select_cmd: String,
    pub cd_cmd: String,
    pub icons: bool,
    pub icons_space: bool,
    pub media_autoplay: bool,
    pub media_mute: bool,
    pub media_previewer: String,
    pub media_previewer_exists: bool,
    pub ratios: Vec<usize>,
    pub graphics: String,
    pub keybinds: KeyBinds,
}

impl View for Config {
    type V = Settings;

    open spec fn view(&self) -> Settings {
        Settings {
            animation: self.animation,
            animation_refresh_frequency: self.animation_refresh_frequency,
            show_hidden: self.show_hidden,
            select_cmd: self.select_cmd@,
            cd_cmd: self.cd_cmd@,
            icons: self.icons,
            icons_space: self.icons_space,
            media_autoplay: self.media_autoplay,
            media_mute: self.media_mute,
            media_previewer: self.media_previewer@,
            ratios: self.ratios@,
            graphics: self.graphics@,
        }
    }
}

/// The settings before the file is read, in a terminal named `term`.
pub open spec fn default_settings(term: Seq<char>) -> Settings {
    Settings {
        animation: true,
        animation_refresh_frequency: 60,
        show_hidden: false,
        select_cmd: "find -type f | fzf -m"@,
        cd_cmd: "find -type d | fzf"@,
        icons: false,
        icons_space: false,
        media_autoplay: false,
        media_mute: false,
        media_previewer: "hunter-media"@,
        ratios: seq![20usize, 30usize, 49usize],
        graphics: g_mode(term),
    }
}

/// `s` with the options given on the command line put over it.
pub open spec fn with_argv(s: Settings, a: ArgvConfig) -> Settings {
    Settings {
        animation: match a.animation {
            Some(v) => v,
            None => s.animation,
        },
        show_hidden: match a.show_hidden {
            Some(v) => v,
            None => s.show_hidden,
        },
        icons: match a.icons {
            Some(v) => v,
            None => s.icons,
        },
        graphics: match a.graphics {
            Some(g) => g@,
            None => s.graphics,
        },
        ..s
    }
}

/// The command line options override the settings file: whatever the
/// file's lines set, each option given on the command line has the value
/// it gives, and each option not given keeps the file's value.
pub proof fn lemma_flags_override_file(term: Seq<char>, argv: ArgvConfig, text: Seq<char>)
    ensures
        ({
            let file = apply_lines(with_argv(default_settings(term), argv), lines(text), term);
            let r = with_argv(file, argv);
            &&& r.animation == match argv.animation {
                Some(v) => v,
                None => file.animation,
            }
            &&& r.show_hidden == match argv.show_hidden {
                Some(v) => v,
                None => file.show_hidden,
            }
            &&& r.icons == match argv.icons {
                Some(v) => v,
                None => file.icons,
            }
            &&& r.graphics == match argv.graphics {
                Some(g) => g@,
                None => file.graphics,
            }
        }),
{
}

/// A settings line cut at `=` into key and value; `None` unless it holds
/// exactly one `=`.
pub open spec fn prep_line(line: Seq<char>) -> Option<(Seq<char>, Seq<char>)> {
    let p = split(line, '=');
    if p.len() == 2 {
        Some((p[0], p[1]))
    } else {
        None
    }
}

/// `on` and `off` switch an option; any other value leaves it as it was.
pub open spec fn switch(v: Seq<char>, cur: bool) -> bool {
    if v == "on"@ {
        true
    } else if v == "off"@ {
        false
    } else {
        cur
    }
}

pub open spec fn is_switch(v: Seq<char>) -> bool {
    v == "on"@ || v == "off"@
}

/// The characters a ratios value may hold.
pub open spec fn ratio_chars_ok(v: Seq<char>) -> bool {
    forall|i: int|
        0 <= i < v.len() ==> is_digit(#[trigger] v[i]) || is_whitespace(v[i]) || v[i] == ':'
            || v[i] == ','
}

/// The ratios value's pieces between `,` and `:`, trimmed.
pub open spec fn ratio_pieces(v: Seq<char>) -> Seq<Seq<char>> {
    split_any(v, seq![',', ':']).map_values(|p: Seq<char>| trim(p))
}

/// The numbers the pieces stand for.
pub open spec fn ratio_values(v: Seq<char>) -> Seq<usize> {
    ratio_pieces(v).map_values(|p: Seq<char>| parse_unsigned(p, usize::MAX as int)->0 as usize)
}

pub open spec fn sum_usize(s: Seq<usize>) -> int
    decreases s.len(),
{
    if s.len() == 0 {
        0
    } else {
        sum_usize(s.drop_last()) + s.last()
    }
}

/// Whether every piece of the ratios value is a number and their sum fits in
/// a `usize`; other values make the settings reader panic.
pub open spec fn ratios_parse(v: Seq<char>) -> bool {
    &&& forall|i: int|
        0 <= i < ratio_pieces(v).len() ==> (parse_unsigned(
            #[trigger] ratio_pieces(v)[i],
            usize::MAX as int,
        ) is Some)
    &&& sum_usize(ratio_values(v)) <= usize::MAX
}

/// The ratios a `ratios` value sets: three numbers, not all zero, none above
/// `u16::MAX`; `None` where the value is refused.
pub open spec fn accepted_ratios(v: Seq<char>) -> Option<Seq<usize>> {
    let r = ratio_values(v);
    if ratio_chars_ok(v) && r.len() == 3 && sum_usize(r) > 0 && (forall|i: int|
        0 <= i < 3 ==> #[trigger] r[i] <= u16::MAX) {
        Some(r)
    } else {
        None
    }
}

/// The settings after the line `key=v`, in a terminal named `term`; the
/// graphics mode is `graphics_mode` (or `graphics`), and playing media at
/// once is `media_autostart` (or `media_autoplay`).
pub open spec fn apply_setting(s: Settings, k: Seq<char>, v: Seq<char>, term: Seq<char>) -> Settings {
    if k == "animation"@ {
        Settings { animation: switch(v, s.animation), ..s }
    } else if k == "animation_refresh_frequency"@ {
        match parse_unsigned(v, usize::MAX as int) {
            Some(n) => Settings { animation_refresh_frequency: n as usize, ..s },
            None => s,
        }
    } else if k == "show_hidden"@ {
        Settings { show_hidden: switch(v, s.show_hidden), ..s }
    } else if k == "icons"@ {
        Settings { icons: switch(v, s.icons), ..s }
    } else if k == "icons_space"@ {
        Settings { icons_space: switch(v, s.icons_space), ..s }
    } else if k == "select_cmd"@ {
        Settings { select_cmd: v, ..s }
    } else if k == "cd_cmd"@ {
        Settings { cd_cmd: v, ..s }
    } else if k == "media_autoplay"@ || k == "media_autostart"@ {
        Settings { media_autoplay: switch(v, s.media_autoplay), ..s }
    } else if k == "media_mute"@ {
        Settings { media_mute: switch(v, s.media_mute), ..s }
    } else if k == "media_previewer"@ {
        Settings { media_previewer: v, ..s }
    } else if k == "ratios"@ {
        match accepted_ratios(v) {
            Some(r) => Settings { ratios: r, ..s },
            None => s,
        }
    } else if k == "graphics"@ || k == "graphics_mode"@ {
        if v == "sixel"@ {
            Settings { graphics: "sixel"@, ..s }
        } else if v == "kitty"@ {
            Settings { graphics: "kitty"@, ..s }
        } else if v == "unicode"@ {
            Settings { graphics: "unicode"@, ..s }
        } else if v == "auto"@ {
            Settings { graphics: g_mode(term), ..s }
        } else {
            s
        }
    } else {
        s
    }
}

/// A switch line `key=on` or `key=off` sets the setting its key names (both
/// names of the autoplay setting alike) to on or off, and leaves every
/// other setting as it was; a switch line with another value changes
/// nothing.
pub proof fn lemma_switch_lines(s: Settings, v: Seq<char>, term: Seq<char>)
    ensures
        ({
            let on = v == "on"@;
            let known = v == "on"@ || v == "off"@;
            &&& apply_setting(s, "animation"@, v, term) == if known {
                Settings { animation: on, ..s }
            } else {
                s
            }
            &&& apply_setting(s, "show_hidden"@, v, term) == if known {
                Settings { show_hidden: on, ..s }
            } else {
                s
            }
            &&& apply_setting(s, "icons"@, v, term) == if known {
                Settings { icons: on, ..s }
            } else {
                s
            }
            &&& apply_setting(s, "icons_space"@, v, term) == if known {
                Settings { icons_space: on, ..s }
            } else {
                s
            }
            &&& apply_setting(s, "media_autoplay"@, v, term) == if known {
                Settings { media_autoplay: on, ..s }
            } else {
                s
            }
            &&& apply_setting(s, "media_autostart"@, v, term) == if known {
                Settings { media_autoplay: on, ..s }
            } else {
                s
            }
            &&& apply_setting(s, "media_mute"@, v, term) == if known {
                Settings { media_mute: on, ..s }
            } else {
                s
            }
        }),
{
    reveal_strlit("on");
    reveal_strlit("off");
    reveal_strlit("animation");
    reveal_strlit("animation_refresh_frequency");
    reveal_strlit("show_hidden");
    reveal_strlit("icons");
    reveal_strlit("icons_space");
    reveal_strlit("select_cmd");
    reveal_strlit("cd_cmd");
    reveal_strlit("media_autoplay");
    reveal_strlit("media_autostart");
    reveal_strlit("media_mute");
    assert("animation"@.len() == 9);
    assert("animation_refresh_frequency"@.len() == 27);
    assert("show_hidden"@.len() == 11);
    assert("icons"@.len() == 5);
    assert("icons_space"@.len() == 11);
    assert("select_cmd"@.len() == 10);
    assert("cd_cmd"@.len() == 6);
    assert("media_autoplay"@.len() == 14);
    assert("media_autostart"@.len() == 15);
    assert("media_mute"@.len() == 10);
    assert("icons_space"@[0] != "show_hidden"@[0]);
    assert("media_mute"@[0] != "select_cmd"@[0]);
    assert("on"@.len() != "off"@.len());
}

/// A text setting takes the line's value as it stands, a frequency the
/// number the value reads as (nothing changes where it is no number), the
/// graphics mode (under either name) one of the modes named, or the one
/// that suits the terminal for `auto`; a key that names no setting changes
/// nothing.
pub proof fn lemma_value_lines(s: Settings, k: Seq<char>, v: Seq<char>, term: Seq<char>)
    ensures
        apply_setting(s, "select_cmd"@, v, term) == (Settings { select_cmd: v, ..s }),
        apply_setting(s, "cd_cmd"@, v, term) == (Settings { cd_cmd: v, ..s }),
        apply_setting(s, "media_previewer"@, v, term) == (Settings { media_previewer: v, ..s }),
        apply_setting(s, "animation_refresh_frequency"@, v, term) == match parse_unsigned(v, usize::MAX as int) {
            Some(n) => Settings { animation_refresh_frequency: n as usize, ..s },
            None => s,
        },
        (v == "sixel"@ || v == "kitty"@ || v == "unicode"@) ==> apply_setting(s, "graphics"@, v, term) == (
        Settings { graphics: v, ..s }) && apply_setting(s, "graphics_mode"@, v, term) == (Settings {
            graphics: v,
            ..s
        }),
        apply_setting(s, "graphics_mode"@, "auto"@, term) == (Settings { graphics: g_mode(term), ..s }),
        !(v == "sixel"@ || v == "kitty"@ || v == "unicode"@ || v == "auto"@) ==> apply_setting(
            s,
            "graphics"@,
            v,
            term,
        ) == s,
        !(k == "animation"@ || k == "animation_refresh_frequency"@ || k == "show_hidden"@ || k == "icons"@
            || k == "icons_space"@ || k == "select_cmd"@ || k == "cd_cmd"@ || k == "media_autoplay"@ || k
            == "media_autostart"@ || k == "media_mute"@ || k == "media_previewer"@ || k == "ratios"@ || k
            == "graphics"@ || k == "graphics_mode"@) ==> apply_setting(s, k, v, term) == s,
{
    reveal_strlit("animation");
    reveal_strlit("animation_refresh_frequency");
    reveal_strlit("show_hidden");
    reveal_strlit("icons");
    reveal_strlit("icons_space");
    reveal_strlit("select_cmd");
    reveal_strlit("cd_cmd");
    reveal_strlit("media_autoplay");
    reveal_strlit("media_autostart");
    reveal_strlit("media_mute");
    reveal_strlit("media_previewer");
    reveal_strlit("ratios");
    reveal_strlit("graphics");
    reveal_strlit("graphics_mode");
    reveal_strlit("sixel");
    reveal_strlit("kitty");
    reveal_strlit("unicode");
    reveal_strlit("auto");
    assert("animation"@.len() == 9);
    assert("animation_refresh_frequency"@.len() == 27);
    assert("show_hidden"@.len() == 11);
    assert("icons"@.len() == 5);
    assert("icons_space"@.len() == 11);
    assert("select_cmd"@.len() == 10);
    assert("cd_cmd"@.len() == 6);
    assert("media_autoplay"@.len() == 14);
    assert("media_autostart"@.len() == 15);
    assert("media_mute"@.len() == 10);
    assert("media_previewer"@.len() == 15);
    assert("ratios"@.len() == 6);
    assert("graphics"@.len() == 8);
    assert("graphics_mode"@.len() == 13);
    assert("sixel"@.len() == 5);
    assert("kitty"@.len() == 5);
    assert("unicode"@.len() == 7);
    assert("auto"@.len() == 4);
    assert("icons_space"@[0] != "show_hidden"@[0]);
    assert("media_mute"@[0] != "select_cmd"@[0]);
    assert("sixel"@[0] != "kitty"@[0]);
    assert("media_previewer"@[6] != "media_autostart"@[6]);
}

/// Whether the line `key=v` is reported as an invalid settings line: a
/// switch that is neither `on` nor `off`, a frequency that is no number, a
/// graphics mode other than `sixel`, `kitty`, `unicode` or `auto`, or an
/// unknown key.
pub open spec fn setting_rejected(k: Seq<char>, v: Seq<char>) -> bool {
    if k == "animation"@ {
        !is_switch(v)
    } else if k == "animation_refresh_frequency"@ {
        parse_unsigned(v, usize::MAX as int) is None
    } else if k == "show_hidden"@ {
        !is_switch(v)
    } else if k == "icons"@ {
        !is_switch(v)
    } else if k == "icons_space"@ {
        !is_switch(v)
    } else if k == "select_cmd"@ {
        false
    } else if k == "cd_cmd"@ {
        false
    } else if k == "media_autoplay"@ || k == "media_autostart"@ {
        !is_switch(v)
    } else if k == "media_mute"@ {
        !is_switch(v)
    } else if k == "media_previewer"@ {
        false
    } else if k == "ratios"@ {
        false
    } else if k == "graphics"@ || k == "graphics_mode"@ {
        !(v == "sixel"@ || v == "kitty"@ || v == "unicode"@ || v == "auto"@)
    } else {
        true
    }
}

/// The settings after one line of the file.
pub open spec fn apply_line(s: Settings, line: Seq<char>, term: Seq<char>) -> Settings {
    match prep_line(line) {
        Some((k, v)) => apply_setting(s, k, v, term),
        None => s,
    }
}

/// Whether a line of the file is reported as invalid.
pub open spec fn line_rejected(line: Seq<char>) -> bool {
    match prep_line(line) {
        Some((k, v)) => setting_rejected(k, v),
        None => true,
    }
}

/// Whether the settings reader can take the line without panicking.
pub open spec fn line_readable(line: Seq<char>) -> bool {
    match prep_line(line) {
        Some((k, v)) => (k == "ratios"@ && ratio_chars_ok(v)) ==> ratios_parse(v),
        None => true,
    }
}

/// The settings after the lines `ls`, one after the other.
pub open spec fn apply_lines(s: Settings, ls: Seq<Seq<char>>, term: Seq<char>) -> Settings
    decreases ls.len(),
{
    if ls.len() == 0 {
        s
    } else {
        apply_line(apply_lines(s, ls.drop_last(), term), ls.last(), term)
    }
}

/// The lines of `ls` that are reported as invalid, in order.
pub open spec fn rejected_lines(ls: Seq<Seq<char>>) -> Seq<Seq<char>>
    decreases ls.len(),
{
    if ls.len() == 0 {
        Seq::empty()
    } else if line_rejected(ls.last()) {
        rejected_lines(ls.drop_last()).push(ls.last())
    } else {
        rejected_lines(ls.drop_last())
    }
}

/// Whether the settings reader can take the whole text without panicking.
pub open spec fn config_text_readable(text: Seq<char>) -> bool {
    forall|i: int| 0 <= i < lines(text).len() ==> line_readable(#[trigger] lines(text)[i])
}

pub open spec fn strings_view(v: Seq<String>) -> Seq<Seq<char>> {
    v.map_values(|s: String| s@)
}

} // verus!

verus! {

proof fn lemma_sum_prefix(s: Seq<usize>, j: int)
    requires
        0 <= j <= s.len(),
    ensures
        0 <= sum_usize(s.take(j)) <= sum_usize(s),
    decreases s.len(),
{
    if s.len() > 0 {
        if j == s.len() {
            assert(s.take(j) =~= s);
            lemma_sum_prefix(s.drop_last(), s.len() - 1);
            assert(s.drop_last().take(s.len() - 1) =~= s.drop_last());
        } else {
            lemma_sum_prefix(s.drop_last(), j);
            assert(s.drop_last().take(j) =~= s.take(j));
        }
    }
}

fn ratio_char(c: char) -> (r: bool)
    ensures
        r == (is_digit(c) || is_whitespace(c) || c == ':' || c == ','),
{
    ('0' <= c && c <= '9') || char_is_whitespace(c) || c == ':' || c == ','
}

fn ratio_chars_check(v: &[char]) -> (r: bool)
    ensures
        r == ratio_chars_ok(v@),
{
    let mut i: usize = 0;
    while i < v.len()
        invariant
            i <= v.len(),
            forall|k: int|
                0 <= k < i ==> is_digit(#[trigger] v@[k]) || is_whitespace(v@[k]) || v@[k] == ':'
                    || v@[k] == ',',
        decreases v.len() - i,
    {
        if !ratio_char(v[i]) {
            return false;
        }
        i += 1;
    }
    true
}

/// The pieces of a ratios value, trimmed.
fn ratio_piece_chars(v: &[char]) -> (r: Vec<Vec<char>>)
    ensures
        chars_of(r@) == ratio_pieces(v@),
{
    let seps = [',', ':'];
    assert(seps@ =~= seq![',', ':']);
    let parts = split_any_chars(v, &seps);
    let ghost p = split_any(v@, seq![',', ':']);
    let mut r: Vec<Vec<char>> = Vec::new();
    let mut i: usize = 0;
    while i < parts.len()
        invariant
            i <= parts@.len(),
            chars_of(parts@) == p,
            chars_of(r@) == p.take(i as int).map_values(|q: Seq<char>| trim(q)),
        decreases parts.len() - i,
    {
        let t = trim_chars(&parts[i]);
        let ghost prev = chars_of(r@);
        r.push(t);
        assert(chars_of(r@) =~= prev.push(trim(p[i as int])));
        assert(p.take(i + 1).map_values(|q: Seq<char>| trim(q)) =~= p.take(i as int).map_values(
            |q: Seq<char>| trim(q),
        ).push(trim(p[i as int])));
        i += 1;
    }
    assert(p.take(i as int) =~= p);
    r
}

/// Whether every piece of the ratios value `v` is a number and their sum fits.
fn ratios_parse_check(v: &[char]) -> (r: bool)
    ensures
        r == ratios_parse(v@),
{
    let pieces = ratio_piece_chars(v);
    let ghost vals = ratio_values(v@);
    let mut sum: usize = 0;
    let mut i: usize = 0;
    while i < pieces.len()
        invariant
            i <= pieces@.len(),
            chars_of(pieces@) == ratio_pieces(v@),
            vals == ratio_values(v@),
            vals.len() == pieces@.len(),
            forall|k: int|
                0 <= k < i ==> (parse_unsigned(#[trigger] ratio_pieces(v@)[k], usize::MAX as int) is Some),
            sum == sum_usize(vals.take(i as int)),
        decreases pieces.len() - i,
    {
        assert(pieces@[i as int]@ == ratio_pieces(v@)[i as int]);
        match parse_unsigned_chars(&pieces[i], usize::MAX) {
            None => {
                return false;
            },
            Some(n) => {
                assert(vals[i as int] == n);
                assert(vals.take(i + 1).drop_last() =~= vals.take(i as int));
                match sum.checked_add(n) {
                    None => {
                        proof {
                            lemma_sum_prefix(vals, i + 1);
                        }
                        return false;
                    },
                    Some(t) => {
                        sum = t;
                    },
                }
            },
        }
        i += 1;
    }
    assert(vals.take(i as int) =~= vals);
    true
}

/// The ratios a `ratios` value sets, or `None` where it is refused.
fn parse_ratios(v: &[char]) -> (r: Option<Vec<usize>>)
    requires
        ratio_chars_ok(v@) ==> ratios_parse(v@),
    ensures
        match accepted_ratios(v@) {
            Some(x) => r matches Some(y) && y@ == x,
            None => r is None,
        },
{
    if !ratio_chars_check(v) {
        return None;
    }
    let pieces = ratio_piece_chars(v);
    let ghost vals = ratio_values(v@);
    let mut out: Vec<usize> = Vec::new();
    let mut sum: usize = 0;
    let mut i: usize = 0;
    while i < pieces.len()
        invariant
            i <= pieces@.len(),
            chars_of(pieces@) == ratio_pieces(v@),
            vals == ratio_values(v@),
            vals.len() == pieces@.len(),
            ratios_parse(v@),
            out@ == vals.take(i as int),
            sum == sum_usize(vals.take(i as int)),
        decreases pieces.len() - i,
    {
        assert(pieces@[i as int]@ == ratio_pieces(v@)[i as int]);
        let n = match parse_unsigned_chars(&pieces[i], usize::MAX) {
            Some(n) => n,
            None => {
                return None;
            },
        };
        assert(vals[i as int] == n);
        assert(vals.take(i + 1).drop_last() =~= vals.take(i as int));
        proof {
            lemma_sum_prefix(vals, i + 1);
        }
        sum = sum + n;
        out.push(n);
        assert(out@ =~= vals.take(i + 1));
        i += 1;
    }
    assert(vals.take(i as int) =~= vals);
    if out.len() == 3 && sum > 0 && out[0] <= 65535 && out[1] <= 65535 && out[2] <= 65535 {
        Some(out)
    } else {
        None
    }
}

impl Config {
    /// The settings before the settings file is read, in a terminal named `term`.
    pub fn default(term: &str) -> (r: Config)
        ensures
            r@ == default_settings(term@),
            r.keybinds.is_default(),
            !r.media_previewer_exists,
    {
        let mut ratios: Vec<usize> = Vec::new();
        ratios.push(20);
        ratios.push(30);
        ratios.push(49);
        assert(ratios@ =~= seq![20usize, 30usize, 49usize]);
        Config {
            animation: true,
            animation_refresh_frequency: 60,
            show_hidden: false,
            select_cmd: String::from_str("find -type f | fzf -m"),
            cd_cmd: String::from_str("find -type d | fzf"),
            icons: false,
            icons_space: false,
            media_autoplay: false,
            media_mute: false,
            media_previewer: String::from_str("hunter-media"),
            media_previewer_exists: false,
            ratios,
            graphics: detect_g_mode(term),
            keybinds: KeyBinds::default(),
        }
    }

    /// The default settings with the command line options `argv` put over them.
    pub fn new(term: &str, argv: &ArgvConfig) -> (r: Config)
        ensures
            r@ == with_argv(default_settings(term@), *argv),
            r.keybinds.is_default(),
            !r.media_previewer_exists,
    {
        infuse_argv_config(Config::default(term), argv)
    }

    /// Applies one line of the settings file; returns whether the line was
    /// accepted (a refused line leaves the settings as they were).
    #[verifier::rlimit(30)]
    fn apply_line(&mut self, line: &[char], term: &str) -> (accepted: bool)
        requires
            line_readable(line@),
        ensures
            final(self)@ == apply_line(old(self)@, line@, term@),
            accepted == !line_rejected(line@),
            final(self).keybinds == old(self).keybinds,
            final(self).media_previewer_exists == old(self).media_previewer_exists,
    {
        let parts = split_chars(line, '=');
        if parts.len() != 2 {
            return false;
        }
        let k = &parts[0];
        let v = &parts[1];
        assert(prep_line(line@) == Some((k@, v@)));
        if is_word(k, "animation") {
            if is_word(v, "on") {
                self.animation = true;
                true
            } else if is_word(v, "off") {
                self.animation = false;
                true
            } else {
                false
            }
        } else if is_word(k, "animation_refresh_frequency") {
            match parse_unsigned_chars(v, usize::MAX) {
                Some(n) => {
                    self.animation_refresh_frequency = n;
                    true
                },
                None => false,
            }
        } else if is_word(k, "show_hidden") {
            if is_word(v, "on") {
                self.show_hidden = true;
                true
            } else if is_word(v, "off") {
                self.show_hidden = false;
                true
            } else {
                false
            }
        } else if is_word(k, "icons") {
            if is_word(v, "on") {
                self.icons = true;
                true
            } else if is_word(v, "off") {
                self.icons = false;
                true
            } else {
                false
            }
        } else if is_word(k, "icons_space") {
            if is_word(v, "on") {
                self.icons_space = true;
                true
            } else if is_word(v, "off") {
                self.icons_space = false;
                true
            } else {
                false
            }
        } else if is_word(k, "select_cmd") {
            self.select_cmd = chars_to_string(v);
            true
        } else if is_word(k, "cd_cmd") {
            self.cd_cmd = chars_to_string(v);
            true
        } else if is_word(k, "media_autoplay") || is_word(k, "media_autostart") {
            if is_word(v, "on") {
                self.media_autoplay = true;
                true
            } else if is_word(v, "off") {
                self.media_autoplay = false;
                true
            } else {
                false
            }
        } else if is_word(k, "media_mute") {
            if is_word(v, "on") {
                self.media_mute = true;
                true
            } else if is_word(v, "off") {
                self.media_mute = false;
                true
            } else {
                false
            }
        } else if is_word(k, "media_previewer") {
            self.media_previewer = chars_to_string(v);
            true
        } else if is_word(k, "ratios") {
            match parse_ratios(v) {
                Some(r) => {
                    self.ratios = r;
                },
                None => {},
            }
            true
        } else if is_word(k, "graphics") || is_word(k, "graphics_mode") {
            if is_word(v, "sixel") {
                self.graphics = String::from_str("sixel");
                true
            } else if is_word(v, "kitty") {
                self.graphics = String::from_str("kitty");
                true
            } else if is_word(v, "unicode") {
                self.graphics = String::from_str("unicode");
                true
            } else if is_word(v, "auto") {
                self.graphics = detect_g_mode(term);
                true
            } else {
                false
            }
        } else {
            false
        }
    }

    /// Whether the settings text can be read: in every `ratios` line made of
    /// digits, whitespace, `,` and `:`, each piece must be a number that fits
    /// in a `usize` (an empty piece is none), and their sum must fit too, or
    /// the reader panics.
    pub fn readable(text: &str) -> (r: bool)
        ensures
            r == config_text_readable(text@),
    {
        let chars = str_to_chars(text);
        let ls = lines_chars(&chars);
        let ghost l = lines(text@);
        let mut i: usize = 0;
        while i < ls.len()
            invariant
                i <= ls@.len(),
                chars_of(ls@) == l,
                l == lines(text@),
                forall|k: int| 0 <= k < i ==> line_readable(#[trigger] l[k]),
            decreases ls.len() - i,
        {
            let line = &ls[i];
            assert(line@ == l[i as int]);
            let parts = split_chars(line, '=');
            if parts.len() == 2 {
                assert(prep_line(line@) == Some((parts@[0]@, parts@[1]@)));
                if is_word(&parts[0], "ratios") && ratio_chars_check(&parts[1])
                    && !ratios_parse_check(&parts[1]) {
                    return false;
                }
            }
            i += 1;
        }
        true
    }

    /// Reads the settings file's text `config_text` (`None` where there is no
    /// such file) in a terminal named `term`: each line sets one option over
    /// the defaults, lines that cannot be used are listed, and the command
    /// line options `argv` are put over the result. Where the file exists, the
    /// key bindings come from the bindings file's text `keys_text` when it is
    /// there and valid. Whether the media previewer exists is left unset.
    pub fn load(config_text: Option<&str>, keys_text: Option<&str>, term: &str, argv: &ArgvConfig) -> (r: (
        Config,
        Vec<String>,
    ))
        requires
            config_text matches Some(t) ==> config_text_readable(t@),
        ensures
            !r.0.media_previewer_exists,
            match config_text {
                None => {
                    &&& r.0@ == with_argv(default_settings(term@), *argv)
                    &&& r.0.keybinds.is_default()
                    &&& r.1@.len() == 0
                },
                Some(t) => {
                    &&& r.0@ == with_argv(
                        apply_lines(with_argv(default_settings(term@), *argv), lines(t@), term@),
                        *argv,
                    )
                    &&& strings_view(r.1@) == rejected_lines(lines(t@))
                    &&& match keys_text {
                        None => r.0.keybinds.is_default(),
                        Some(k) => match ini_document(k@) {
                            Ok(secs) => r.0.keybinds.loaded_from(secs),
                            Err(_) => r.0.keybinds.is_default(),
                        },
                    }
                },
            },
    {
        let start = Config::new(term, argv);
        match config_text {
            None => (infuse_argv_config(start, argv), Vec::new()),
            Some(text) => {
                let ghost init = start@;
                let chars = str_to_chars(text);
                let ls = lines_chars(&chars);
                let ghost l = lines(text@);
                let mut config = start;
                let mut errors: Vec<String> = Vec::new();
                let mut i: usize = 0;
                assert(l.take(0) =~= Seq::<Seq<char>>::empty());
                assert(strings_view(errors@) =~= Seq::<Seq<char>>::empty());
                while i < ls.len()
                    invariant
                        i <= ls@.len(),
                        chars_of(ls@) == l,
                        l == lines(text@),
                        config_text_readable(text@),
                        config@ == apply_lines(init, l.take(i as int), term@),
                        strings_view(errors@) == rejected_lines(l.take(i as int)),
                        config.keybinds.is_default(),
                        !config.media_previewer_exists,
                    decreases ls.len() - i,
                {
                    let line = &ls[i];
                    assert(line@ == l[i as int]);
                    assert(l.take(i + 1).drop_last() =~= l.take(i as int));
                    assert(l.take(i + 1).last() == l[i as int]);
                    assert(line_readable(l[i as int]));
                    let accepted = config.apply_line(line, term);
                    if !accepted {
                        let ghost prev = strings_view(errors@);
                        errors.push(chars_to_string(line));
                        assert(strings_view(errors@) =~= prev.push(l[i as int]));
                    }
                    i += 1;
                }
                assert(l.take(i as int) =~= l);
                let mut config = infuse_argv_config(config, argv);
                match keys_text {
                    Some(k) => match KeyBinds::load(k) {
                        Ok(kb) => {
                            config.keybinds = kb;
                        },
                        Err(_) => {},
                    },
                    None => {},
                }
                (config, errors)
            },
        }
    }

    pub fn animate(&self) -> (r: bool)
        ensures
            r == self.animation,
    {
        self.animation
    }

    pub fn show_hidden(&self) -> (r: bool)
        ensures
            r == self.show_hidden,
    {
        self.show_hidden
    }

    pub fn media_available(&self) -> (r: bool)
        ensures
            r == self.media_previewer_exists,
    {
        self.media_previewer_exists
    }
}

/// `config` with the command line options `argv` put over it.
pub fn infuse_argv_config(config: Config, argv: &ArgvConfig) -> (r: Config)
    ensures
        r@ == with_argv(config@, *argv),
        r.keybinds == config.keybinds,
        r.media_previewer_exists == config.media_previewer_exists,
{
    let mut config = config;
    match argv.animation {
        Some(v) => {
            config.animation = v;
        },
        None => {},
    }
    match argv.show_hidden {
        Some(v) => {
            config.show_hidden = v;
        },
        None => {},
    }
    match argv.icons {
        Some(v) => {
            config.icons = v;
        },
        None => {},
    }
    match &argv.graphics {
        Some(g) => {
            config.graphics = g.clone();
        },
        None => {},
    }
    config
}

} // verus!
