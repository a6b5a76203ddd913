//! Terminal output: escape sequences for colors and cursor movement, and
//! fitting a line of text that may hold color codes to a number of columns.
use vstd::prelude::*;
use vstd::utf8::*;
use vstd::string::StringSliceAdditionalSpecFns;
use crate::text::{chars_to_string, str_to_chars};
use parse_ansi::parse_bytes;
use unicode_width::{UnicodeWidthChar, UnicodeWidthStr};
use termion::color::{Bg, Fg};

verus! {

/// The decimal digits of `n`, as `Display` writes an unsigned integer.
pub open spec fn decimal(n: nat) -> Seq<char>
    decreases n,
{
    if n < 10 {
        seq![('0' as u8 + n) as char]
    } else {
        decimal(n / 10).push(('0' as u8 + (n % 10)) as char)
    }
}

/// Appends the decimal digits of `n` to `out`.
pub fn push_decimal(out: &mut Vec<char>, n: usize)
    ensures
        final(out)@ == old(out)@ + decimal(n as nat),
    decreases n,
{
    if n < 10 {
        out.push(((n as u8) + ('0' as u8)) as char);
        assert(final(out)@ =~= old(out)@ + decimal(n as nat));
    } else {
        push_decimal(out, n / 10);
        out.push((((n % 10) as u8) + ('0' as u8)) as char);
        assert(final(out)@ =~= old(out)@ + decimal(n as nat));
    }
}

/// The colors of the terminal's palette that the program uses.
#[derive(Clone, Copy, Debug, PartialEq, Eq, Structural)]
pub enum TermColor {
    Red,
    Green,
    Yellow,
    Blue,
    Cyan,
    White,
    LightGreen,
    LightYellow,
    LightBlue,
}

/// The palette number of a color.
pub open spec fn color_number(c: TermColor) -> nat {
    match c {
        TermColor::Red => 1,
        TermColor::Green => 2,
        TermColor::Yellow => 3,
        TermColor::Blue => 4,
        TermColor::Cyan => 6,
        TermColor::White => 7,
        TermColor::LightGreen => 10,
        TermColor::LightYellow => 11,
        TermColor::LightBlue => 12,
    }
}

/// The escape sequence that sets the foreground to palette entry `n`.
pub open spec fn fg_code(n: nat) -> Seq<char> {
    "\x1b[38;5;"@ + decimal(n) + "m"@
}

/// The escape sequence that sets the background to palette entry `n`.
pub open spec fn bg_code(n: nat) -> Seq<char> {
    "\x1b[48;5;"@ + decimal(n) + "m"@
}

/// The escape sequence that moves the cursor to column `x`, row `y` (one-based).
pub open spec fn goto_code(x: u16, y: u16) -> Seq<char> {
    "\x1b["@ + decimal(y as nat) + ";"@ + decimal(x as nat) + "H"@
}

/// The escape sequence that moves the cursor `n` columns to the right.
pub open spec fn right_code(n: u16) -> Seq<char> {
    "\x1b["@ + decimal(n as nat) + "C"@
}

/// termion's `Fg` of a named color, written with `Display`: the source writes
/// the color's `fg_str`, `CSI 38;5;<n>m`.
#[verifier::external_body]
fn fg(c: TermColor) -> (r: String)
    ensures
        r@ == fg_code(color_number(c)),
{
    match c {
        TermColor::Red => format!("{}", Fg(termion::color::Red)),
        TermColor::Green => format!("{}", Fg(termion::color::Green)),
        TermColor::Yellow => format!("{}", Fg(termion::color::Yellow)),
        TermColor::Blue => format!("{}", Fg(termion::color::Blue)),
        TermColor::Cyan => format!("{}", Fg(termion::color::Cyan)),
        TermColor::White => format!("{}", Fg(termion::color::White)),
        TermColor::LightGreen => format!("{}", Fg(termion::color::LightGreen)),
        TermColor::LightYellow => format!("{}", Fg(termion::color::LightYellow)),
        TermColor::LightBlue => format!("{}", Fg(termion::color::LightBlue)),
    }
}

/// termion's `Bg` of a named color, written with `Display`: the source writes
/// the color's `bg_str`, `CSI 48;5;<n>m`.
#[verifier::external_body]
fn bg(c: TermColor) -> (r: String)
    ensures
        r@ == bg_code(color_number(c)),
{
    match c {
        TermColor::Red => format!("{}", Bg(termion::color::Red)),
        TermColor::Green => format!("{}", Bg(termion::color::Green)),
        TermColor::Yellow => format!("{}", Bg(termion::color::Yellow)),
        TermColor::Blue => format!("{}", Bg(termion::color::Blue)),
        TermColor::Cyan => format!("{}", Bg(termion::color::Cyan)),
        TermColor::White => format!("{}", Bg(termion::color::White)),
        TermColor::LightGreen => format!("{}", Bg(termion::color::LightGreen)),
        TermColor::LightYellow => format!("{}", Bg(termion::color::LightYellow)),
        TermColor::LightBlue => format!("{}", Bg(termion::color::LightBlue)),
    }
}

/// termion's `AnsiValue::rgb`: the source checks each part with a debug
/// assertion (at most 5) and gives the palette entry `16 + 36 r + 6 g + b`.
#[verifier::external_body]
fn ansi_rgb(r: u8, g: u8, b: u8) -> (v: u8)
    requires
        r <= 5,
        g <= 5,
        b <= 5,
    ensures
        v == 16 + 36 * r + 6 * g + b,
{
    termion::color::AnsiValue::rgb(r, g, b).0
}

/// termion's `Fg` of a palette entry, written with `Display`: the source
/// writes `fg_string`, `CSI 38;5;` with the number in decimal and `m`.
#[verifier::external_body]
fn fg_ansi(v: u8) -> (r: String)
    ensures
        r@ == fg_code(v as nat),
{
    format!("{}", Fg(termion::color::AnsiValue(v)))
}

/// termion's `cursor::Goto`, written with `Display`: the source writes
/// `CSI <y>;<x>H` after a debug assertion that the position is not (0, 0).
#[verifier::external_body]
fn goto(x: u16, y: u16) -> (r: String)
    requires
        !(x == 0 && y == 0),
    ensures
        r@ == goto_code(x, y),
{
    format!("{}", termion::cursor::Goto(x, y))
}

/// termion's `style::Reset`, written with `Display`: `CSI m`.
#[verifier::external_body]
fn style_reset() -> (r: String)
    ensures
        r@ == "\x1b[m"@,
{
    format!("{}", termion::style::Reset)
}

/// termion's `clear::CurrentLine`, written with `Display`: `CSI 2K`.
#[verifier::external_body]
pub(crate) fn clear_line_sequence() -> (r: String)
    ensures
        r@ == "\x1b[2K"@,
{
    format!("{}", termion::clear::CurrentLine)
}

/// termion's `style::Invert`, written with `Display`: `CSI 7m`.
#[verifier::external_body]
fn style_invert() -> (r: String)
    ensures
        r@ == "\x1b[7m"@,
{
    format!("{}", termion::style::Invert)
}

/// termion's `cursor::Save`, written with `Display`: `CSI s`.
#[verifier::external_body]
fn save_sequence() -> (r: String)
    ensures
        r@ == "\x1b[s"@,
{
    format!("{}", termion::cursor::Save)
}

/// termion's `cursor::Restore`, written with `Display`: `CSI u`.
#[verifier::external_body]
fn restore_sequence() -> (r: String)
    ensures
        r@ == "\x1b[u"@,
{
    format!("{}", termion::cursor::Restore)
}

/// termion's `cursor::Right`, written with `Display`: `CSI <n>C`.
#[verifier::external_body]
fn right_sequence(n: u16) -> (r: String)
    ensures
        r@ == right_code(n),
{
    format!("{}", termion::cursor::Right(n))
}

pub(crate) fn concat(a: String, b: String) -> (r: String)
    ensures
        r@ == a@ + b@,
{
    let mut v = str_to_chars(a.as_str());
    let w = str_to_chars(b.as_str());
    let mut i: usize = 0;
    let ghost start = v@;
    while i < w.len()
        invariant
            i <= w@.len(),
            v@ == start + w@.take(i as int),
        decreases w.len() - i,
    {
        v.push(w[i]);
        i += 1;
        assert(v@ =~= start + w@.take(i as int));
    }
    assert(w@.take(i as int) =~= w@);
    chars_to_string(&v)
}

/// The color of highlighted text: light green.
pub fn highlight_color() -> (r: String)
    ensures
        r@ == fg_code(10),
{
    fg(TermColor::LightGreen)
}

/// The color of plain text: white.
pub fn normal_color() -> (r: String)
    ensures
        r@ == fg_code(7),
{
    fg(TermColor::White)
}

pub fn color_red() -> (r: String)
    ensures
        r@ == fg_code(1),
{
    fg(TermColor::Red)
}

pub fn color_yellow() -> (r: String)
    ensures
        r@ == fg_code(3),
{
    fg(TermColor::Yellow)
}

pub fn color_green() -> (r: String)
    ensures
        r@ == fg_code(2),
{
    fg(TermColor::Green)
}

pub fn color_light_green() -> (r: String)
    ensures
        r@ == fg_code(10),
{
    fg(TermColor::LightGreen)
}

pub fn color_cyan() -> (r: String)
    ensures
        r@ == fg_code(6),
{
    fg(TermColor::Cyan)
}

pub fn color_light_yellow() -> (r: String)
    ensures
        r@ == fg_code(11),
{
    fg(TermColor::LightYellow)
}

/// Orange: the palette entry with red 5, green 4 and blue 0, number 220.
pub fn color_orange() -> (r: String)
    ensures
        r@ == fg_code(220),
{
    let v = ansi_rgb(5, 4, 0);
    fg_ansi(v)
}

/// The colors of the header line: white on blue.
pub fn header_color() -> (r: String)
    ensures
        r@ == fg_code(7) + bg_code(4),
{
    concat(fg(TermColor::White), bg(TermColor::Blue))
}

/// The background of the status line: light blue.
pub fn status_bg() -> (r: String)
    ensures
        r@ == bg_code(12),
{
    bg(TermColor::LightBlue)
}

pub fn reset() -> (r: String)
    ensures
        r@ == "\x1b[m"@,
{
    style_reset()
}

pub fn invert() -> (r: String)
    ensures
        r@ == "\x1b[7m"@,
{
    style_invert()
}

pub fn cursor_save() -> (r: String)
    ensures
        r@ == "\x1b[s"@,
{
    save_sequence()
}

pub fn cursor_restore() -> (r: String)
    ensures
        r@ == "\x1b[u"@,
{
    restore_sequence()
}

/// Moves the cursor `n` columns to the right.
pub fn cursor_right(n: u16) -> (r: String)
    ensures
        r@ == right_code(n),
{
    right_sequence(n)
}

/// Moves the cursor to the first column of row `y` (one-based).
pub fn gotoy(y: u16) -> (r: String)
    ensures
        r@ == goto_code(1, y),
{
    goto(1, y)
}

/// Moves the cursor to column `x`, row `y` (one-based; not both zero).
pub fn goto_xy(x: u16, y: u16) -> (r: String)
    requires
        !(x == 0 && y == 0),
    ensures
        r@ == goto_code(x, y),
{
    goto(x, y)
}

/// Moves the cursor to column `x`, row `y` counted from zero; the one-based
/// position is cut to 16 bits as `as u16` does.
pub fn goto_xy_u(x: usize, y: usize) -> (r: String)
    requires
        x < usize::MAX,
        y < usize::MAX,
        !((x + 1) as u16 == 0 && (y + 1) as u16 == 0),
    ensures
        r@ == goto_code((x + 1) as u16, (y + 1) as u16),
{
    let x = (x + 1) as u16;
    let y = (y + 1) as u16;
    goto(x, y)
}

/// Moves the cursor to the first column of the last row of a terminal that
/// is `ysize` rows high.
pub fn move_bottom(ysize: u16) -> (r: String)
    ensures
        r@ == goto_code(1, ysize),
{
    gotoy(ysize)
}

} // verus!

verus! {

/// The byte ranges of the ANSI escape codes that `parse_ansi` finds in `bytes`.
pub uninterp spec fn ansi_matches(bytes: Seq<u8>) -> Seq<(usize, usize)>;

/// The columns `unicode_width` gives a string.
pub uninterp spec fn display_width(s: Seq<char>) -> usize;

/// The columns `unicode_width` gives a character; `None` for control characters.
pub uninterp spec fn char_display_width(c: char) -> Option<usize>;

/// Byte ranges in order, each inside a text of `len` bytes, none overlapping
/// the next.
pub open spec fn ranges_in_order(m: Seq<(usize, usize)>, len: int) -> bool {
    &&& forall|k: int| 0 <= k < m.len() ==> #[trigger] m[k].0 <= m[k].1 <= len
    &&& forall|k: int| 0 < k < m.len() ==> m[k - 1].1 <= #[trigger] m[k].0
}

/// `parse_ansi::parse_bytes`, the matches' ranges collected. The regex
/// crate's documentation of `find_iter` and `Match` gives that the matches
/// come in order, do not overlap, and have `start <= end`, inside the text;
/// which ranges they are is named `ansi_matches`.
#[verifier::external_body]
fn ansi_ranges(bytes: &[u8]) -> (r: Vec<(usize, usize)>)
    ensures
        r@ == ansi_matches(bytes@),
        ranges_in_order(r@, bytes@.len() as int),
{
    parse_bytes(bytes).map(|m| (m.start(), m.end())).collect()
}

/// `UnicodeWidthStr::width`; its result is named `display_width`.
#[verifier::external_body]
pub(crate) fn str_width(s: &str) -> (r: usize)
    ensures
        r == display_width(s@),
{
    UnicodeWidthStr::width(s)
}

/// The columns `unicode_width` gives a string where ambiguous characters
/// are wide, as in East Asian contexts.
pub uninterp spec fn display_width_cjk(s: Seq<char>) -> usize;

/// `UnicodeWidthStr::width_cjk`; its result is named `display_width_cjk`.
#[verifier::external_body]
pub(crate) fn str_width_cjk(s: &str) -> (r: usize)
    ensures
        r == display_width_cjk(s@),
{
    UnicodeWidthStr::width_cjk(s)
}

/// The bytes of a cut text (as its length in a `usize` counts them) less its
/// East Asian width: the room that the line's padding gives up for wide
/// characters.
pub open spec fn cjk_excess(sized: Seq<char>) -> int {
    (encode_utf8(sized).len() as usize) - display_width_cjk(sized)
}

/// `UnicodeWidthChar::width`; its result is named `char_display_width`.
#[verifier::external_body]
fn char_width(c: char) -> (r: Option<usize>)
    ensures
        r == char_display_width(c),
{
    UnicodeWidthChar::width(c)
}

/// Whether every escape code that `parse_ansi` finds in `bytes` starts and
/// ends between two characters.
pub open spec fn ranges_on_boundaries(m: Seq<(usize, usize)>, bytes: Seq<u8>) -> bool {
    forall|k: int|
        #![trigger m[k]]
        0 <= k < m.len() ==> is_char_boundary(bytes, m[k].0 as int) && is_char_boundary(
            bytes,
            m[k].1 as int,
        )
}

/// Whether the escape codes in `text` can be cut out of it.
pub open spec fn ansi_cuttable(text: Seq<char>) -> bool {
    ranges_on_boundaries(ansi_matches(encode_utf8(text)), encode_utf8(text))
}

/// The text between `a` and `b` of the UTF-8 bytes `bytes`.
pub open spec fn piece(bytes: Seq<u8>, a: int, b: int) -> Seq<char> {
    decode_utf8(bytes.subrange(a, b))
}

/// The tokens before the end of the last of the ranges `m`, and that end:
/// each range gives an escape-code token (`true`), and the text between two
/// ranges a text token (`false`).
pub open spec fn tokens_upto(bytes: Seq<u8>, m: Seq<(usize, usize)>) -> (Seq<(bool, Seq<char>)>, int)
    decreases m.len(),
{
    if m.len() == 0 {
        (Seq::empty(), 0)
    } else {
        let (t, last) = tokens_upto(bytes, m.drop_last());
        let s = m.last().0 as int;
        let e = m.last().1 as int;
        let t1 = if last < s {
            t.push((false, piece(bytes, last, s)))
        } else {
            t
        };
        (t1.push((true, piece(bytes, s, e))), e)
    }
}

/// `bytes` cut into text and escape-code tokens at the ranges `m`.
pub open spec fn tokens_of(bytes: Seq<u8>, m: Seq<(usize, usize)>) -> Seq<(bool, Seq<char>)> {
    let (t, last) = tokens_upto(bytes, m);
    if bytes.len() > last {
        t.push((false, piece(bytes, last, bytes.len() as int)))
    } else {
        t
    }
}

/// The columns a token takes: none for an escape code.
pub open spec fn tok_width(t: (bool, Seq<char>)) -> int {
    if t.0 {
        0
    } else {
        display_width(t.1) as int
    }
}

pub open spec fn char_cols(c: char) -> int {
    match char_display_width(c) {
        Some(w) => w as int,
        None => 0,
    }
}

/// The first characters of `cs` that fit in `left` columns when `fw` are
/// taken already, and the columns taken then.
pub open spec fn fill_chars(cs: Seq<char>, left: int, fw: int) -> (Seq<char>, int)
    decreases cs.len(),
{
    if cs.len() == 0 {
        (Seq::empty(), fw)
    } else if fw + char_cols(cs[0]) > left {
        (Seq::empty(), fw)
    } else {
        let (rest, w) = fill_chars(cs.drop_first(), left, fw + char_cols(cs[0]));
        (seq![cs[0]] + rest, w)
    }
}

/// The tokens `toks` put one after the other while they fit in `xsize`
/// columns, `width` being taken already; the first token that does not fit
/// is filled in character by character up to one column more, and the
/// columns taken in the end.
pub open spec fn fit_tokens(toks: Seq<(bool, Seq<char>)>, xsize: int, width: int) -> (Seq<char>, int)
    decreases toks.len(),
{
    if toks.len() == 0 {
        (Seq::empty(), width)
    } else if width + tok_width(toks[0]) > xsize {
        let (f, fw) = fill_chars(toks[0].1, xsize + 1 - width, 0);
        (f, width + fw)
    } else {
        let (rest, w) = fit_tokens(toks.drop_first(), xsize, width + tok_width(toks[0]));
        (toks[0].1 + rest, w)
    }
}

pub open spec fn spaces(n: nat) -> Seq<char> {
    Seq::new(n, |i: int| ' ')
}

/// `text` fitted to `xsize` columns: escape codes take no room, and a text
/// that is too narrow is padded with spaces.
pub open spec fn sized_text(text: Seq<char>, xsize: int) -> Seq<char> {
    let bytes = encode_utf8(text);
    let (s, w) = fit_tokens(tokens_of(bytes, ansi_matches(bytes)), xsize, 0);
    if w < xsize {
        s + spaces((xsize - w) as nat)
    } else {
        s
    }
}

/// The text tokens of `toks`, the escape codes left out.
pub open spec fn visible_tokens(toks: Seq<(bool, Seq<char>)>) -> Seq<(bool, Seq<char>)>
    decreases toks.len(),
{
    if toks.len() == 0 {
        Seq::empty()
    } else if toks[0].0 {
        visible_tokens(toks.drop_first())
    } else {
        seq![toks[0]] + visible_tokens(toks.drop_first())
    }
}

/// What fitting `toks` puts out with the escape codes it passes through
/// left out, and the columns taken: `fit_tokens` with each code dropped
/// from its output.
pub open spec fn fit_without_codes(toks: Seq<(bool, Seq<char>)>, xsize: int, width: int) -> (Seq<char>, int)
    decreases toks.len(),
{
    if toks.len() == 0 {
        (Seq::empty(), width)
    } else if width + tok_width(toks[0]) > xsize {
        let (f, fw) = fill_chars(toks[0].1, xsize + 1 - width, 0);
        (f, width + fw)
    } else {
        let (rest, w) = fit_without_codes(toks.drop_first(), xsize, width + tok_width(toks[0]));
        (if toks[0].0 {
            rest
        } else {
            toks[0].1 + rest
        }, w)
    }
}

/// Escape codes take no room: fitting a line and then leaving out the
/// codes it kept gives what fitting the line's text alone gives, and the
/// same columns are taken.
pub proof fn lemma_codes_take_no_room(toks: Seq<(bool, Seq<char>)>, xsize: int, width: int)
    requires
        0 <= width <= xsize,
    ensures
        fit_without_codes(toks, xsize, width) == fit_tokens(visible_tokens(toks), xsize, width),
        fit_without_codes(toks, xsize, width).1 == fit_tokens(toks, xsize, width).1,
    decreases toks.len(),
{
    if toks.len() > 0 {
        let v = visible_tokens(toks);
        if toks[0].0 {
            assert(tok_width(toks[0]) == 0);
            lemma_codes_take_no_room(toks.drop_first(), xsize, width);
        } else {
            assert(v[0] == toks[0]);
            assert(v.drop_first() =~= visible_tokens(toks.drop_first()));
            if width + tok_width(toks[0]) <= xsize {
                lemma_codes_take_no_room(toks.drop_first(), xsize, width + tok_width(toks[0]));
            }
        }
    }
}

/// A line fitted to `xsize` columns with the escape codes it kept left
/// out, padded as `sized_text` pads.
pub open spec fn sized_without_codes(text: Seq<char>, xsize: int) -> Seq<char> {
    let bytes = encode_utf8(text);
    let (s, w) = fit_without_codes(tokens_of(bytes, ansi_matches(bytes)), xsize, 0);
    if w < xsize {
        s + spaces((xsize - w) as nat)
    } else {
        s
    }
}

/// Fitting a line's text alone (its escape codes left out) to `xsize`
/// columns, padded as `sized_text` pads.
pub open spec fn sized_visible(text: Seq<char>, xsize: int) -> Seq<char> {
    let bytes = encode_utf8(text);
    let (s, w) = fit_tokens(visible_tokens(tokens_of(bytes, ansi_matches(bytes))), xsize, 0);
    if w < xsize {
        s + spaces((xsize - w) as nat)
    } else {
        s
    }
}

/// Escape codes take no room when a line is fitted: the fitted line with
/// its codes left out is the line's text alone, fitted.
pub proof fn lemma_sized_text_codes(text: Seq<char>, xsize: nat)
    ensures
        sized_without_codes(text, xsize as int) == sized_visible(text, xsize as int),
{
    let bytes = encode_utf8(text);
    lemma_codes_take_no_room(tokens_of(bytes, ansi_matches(bytes)), xsize as int, 0);
}

/// Views of exec tokens.
pub open spec fn token_views(t: Seq<(bool, &str)>) -> Seq<(bool, Seq<char>)> {
    t.map_values(|p: (bool, &str)| (p.0, p.1@))
}

proof fn lemma_boundary_in_prefix(bytes: Seq<u8>, a: int, b: int)
    requires
        valid_utf8(bytes),
        0 <= a <= b <= bytes.len(),
        is_char_boundary(bytes, a),
        is_char_boundary(bytes, b),
    ensures
        valid_utf8(bytes.subrange(0, b)),
        is_char_boundary(bytes.subrange(0, b), a),
{
    valid_utf8_split(bytes, b);
    let pre = bytes.subrange(0, b);
    if a < b {
        is_char_boundary_iff_not_is_continuation_byte(bytes, a);
        is_char_boundary_iff_not_is_continuation_byte(pre, a);
    } else {
        is_char_boundary_start_end_of_seq(pre);
    }
}

/// The text between the byte positions `a` and `b` of `s`.
fn slice_str<'a>(s: &'a str, a: usize, b: usize) -> (r: &'a str)
    requires
        a <= b <= s.spec_bytes().len(),
        is_char_boundary(s.spec_bytes(), a as int),
        is_char_boundary(s.spec_bytes(), b as int),
    ensures
        r@ == piece(s.spec_bytes(), a as int, b as int),
{
    proof {
        encode_utf8_valid_utf8(s@);
        lemma_boundary_in_prefix(s.spec_bytes(), a as int, b as int);
    }
    let (pre, _) = s.split_at(b);
    let (_, r) = pre.split_at(a);
    proof {
        assert(r.spec_bytes() =~= s.spec_bytes().subrange(a as int, b as int));
        encode_utf8_decode_utf8(r@);
    }
    r
}

/// `string` cut into text tokens and escape-code tokens.
fn get_tokens<'a>(string: &'a str) -> (r: Vec<(bool, &'a str)>)
    requires
        ansi_cuttable(string@),
    ensures
        token_views(r@) == tokens_of(string.spec_bytes(), ansi_matches(string.spec_bytes())),
{
    let bytes = string.as_bytes();
    let ranges = ansi_ranges(bytes);
    let ghost b = string.spec_bytes();
    let ghost m = ranges@;
    proof {
        encode_utf8_valid_utf8(string@);
        is_char_boundary_start_end_of_seq(b);
    }
    let mut tokens: Vec<(bool, &'a str)> = Vec::new();
    let mut last: usize = 0;
    let mut i: usize = 0;
    assert(m.take(0) =~= Seq::<(usize, usize)>::empty());
    while i < ranges.len()
        invariant
            i <= m.len(),
            m == ranges@,
            b == string.spec_bytes(),
            m == ansi_matches(b),
            valid_utf8(b),
            ranges_in_order(m, b.len() as int),
            ranges_on_boundaries(m, b),
            is_char_boundary(b, last as int),
            last <= b.len(),
            i > 0 ==> last == m[i - 1].1,
            i == 0 ==> last == 0,
            (token_views(tokens@), last as int) == tokens_upto(b, m.take(i as int)),
        decreases m.len() - i,
    {
        let (s, e) = ranges[i];
        assert(m[i as int] == (s, e));
        assert(m.take(i + 1).drop_last() =~= m.take(i as int));
        assert(m.take(i + 1).last() == (s, e));
        let ghost prev = token_views(tokens@);
        if last < s {
            let t = slice_str(string, last, s);
            tokens.push((false, t));
        }
        let a = slice_str(string, s, e);
        tokens.push((true, a));
        proof {
            if last < s {
                assert(token_views(tokens@) =~= prev.push((false, piece(b, last as int, s as int))).push(
                    (true, piece(b, s as int, e as int)),
                ));
            } else {
                assert(token_views(tokens@) =~= prev.push((true, piece(b, s as int, e as int))));
            }
        }
        last = e;
        i += 1;
    }
    assert(m.take(i as int) =~= m);
    let n = bytes.len();
    if n > last {
        let ghost prev = token_views(tokens@);
        let t = slice_str(string, last, n);
        tokens.push((false, t));
        assert(token_views(tokens@) =~= prev.push((false, piece(b, last as int, n as int))));
    }
    tokens
}

/// The first characters of `cs` that fit in `left` columns.
fn fill(cs: &[char], left: u128) -> (r: (Vec<char>, u128))
    requires
        left <= usize::MAX as u128 + 1,
    ensures
        r.0@ == fill_chars(cs@, left as int, 0).0,
        r.1 == fill_chars(cs@, left as int, 0).1,
        r.1 <= left,
{
    let mut out: Vec<char> = Vec::new();
    let mut fw: u128 = 0;
    let mut i: usize = 0;
    assert(cs@.skip(0) =~= cs@);
    while i < cs.len()
        invariant
            i <= cs@.len(),
            fw <= left,
            left <= usize::MAX as u128 + 1,
            fill_chars(cs@, left as int, 0) == (
                out@ + fill_chars(cs@.skip(i as int), left as int, fw as int).0,
                fill_chars(cs@.skip(i as int), left as int, fw as int).1,
            ),
        decreases cs.len() - i,
    {
        let c = cs[i];
        let cw: u128 = match char_width(c) {
            Some(w) => w as u128,
            None => 0,
        };
        assert(cs@.skip(i as int)[0] == c);
        assert(cs@.skip(i as int).drop_first() =~= cs@.skip(i + 1));
        if fw + cw > left {
            return (out, fw);
        }
        let ghost rest = fill_chars(cs@.skip(i + 1), left as int, fw + cw);
        out.push(c);
        assert(seq![c] + rest.0 =~= seq![c] + rest.0);
        assert(out@ + rest.0 =~= out@.drop_last() + (seq![c] + rest.0));
        fw = fw + cw;
        i += 1;
    }
    assert(cs@.skip(i as int) =~= Seq::<char>::empty());
    (out, fw)
}

/// The tokens fitted to `xsize` columns, and the columns taken.
fn fit(toks: &Vec<(bool, &str)>, xsize: usize) -> (r: (Vec<char>, u128))
    ensures
        r.0@ == fit_tokens(token_views(toks@), xsize as int, 0).0,
        r.1 == fit_tokens(token_views(toks@), xsize as int, 0).1,
{
    let ghost tv = token_views(toks@);
    let mut out: Vec<char> = Vec::new();
    let mut width: usize = 0;
    let mut i: usize = 0;
    assert(tv.skip(0) =~= tv);
    while i < toks.len()
        invariant
            i <= toks@.len(),
            tv == token_views(toks@),
            width <= xsize,
            fit_tokens(tv, xsize as int, 0) == (
                out@ + fit_tokens(tv.skip(i as int), xsize as int, width as int).0,
                fit_tokens(tv.skip(i as int), xsize as int, width as int).1,
            ),
        decreases toks.len() - i,
    {
        let (is_ansi, tok) = toks[i];
        assert(tv[i as int] == (is_ansi, tok@));
        assert(tv.skip(i as int)[0] == tv[i as int]);
        assert(tv.skip(i as int).drop_first() =~= tv.skip(i + 1));
        let tw: usize = if is_ansi {
            0
        } else {
            str_width(tok)
        };
        let chars = str_to_chars(tok);
        if width as u128 + tw as u128 > xsize as u128 {
            let left: u128 = xsize as u128 + 1 - width as u128;
            let (f, fw) = fill(&chars, left);
            let mut k: usize = 0;
            let ghost start = out@;
            while k < f.len()
                invariant
                    k <= f@.len(),
                    out@ == start + f@.take(k as int),
                decreases f.len() - k,
            {
                out.push(f[k]);
                k += 1;
                assert(out@ =~= start + f@.take(k as int));
            }
            assert(f@.take(k as int) =~= f@);
            return (out, width as u128 + fw);
        }
        let ghost rest = fit_tokens(tv.skip(i + 1), xsize as int, width + tw);
        let mut k: usize = 0;
        let ghost start = out@;
        while k < chars.len()
            invariant
                k <= chars@.len(),
                out@ == start + chars@.take(k as int),
            decreases chars.len() - k,
        {
            out.push(chars[k]);
            k += 1;
            assert(out@ =~= start + chars@.take(k as int));
        }
        assert(chars@.take(k as int) =~= chars@);
        assert(out@ + rest.0 =~= start + (tok@ + rest.0));
        width = width + tw;
        i += 1;
    }
    assert(tv.skip(i as int) =~= Seq::<(bool, Seq<char>)>::empty());
    (out, width as u128)
}

/// Fits `string` to `xsize` columns: escape codes (colors) pass through and
/// take no room, text is cut where the line is full (the token that does not
/// fit is filled in up to one column beyond `xsize`), and a shorter line is
/// padded with spaces.
pub fn sized_string_u(string: &str, xsize: usize) -> (r: String)
    requires
        ansi_cuttable(string@),
    ensures
        r@ == sized_text(string@, xsize as int),
{
    let tokens = get_tokens(string);
    let (mut out, width) = fit(&tokens, xsize);
    if width < xsize as u128 {
        let padding = (xsize as u128 - width) as usize;
        let ghost start = out@;
        let mut k: usize = 0;
        while k < padding
            invariant
                k <= padding,
                out@ == start + spaces(k as nat),
            decreases padding - k,
        {
            out.push(' ');
            k += 1;
            assert(out@ =~= start + spaces(k as nat));
        }
    }
    chars_to_string(&out)
}

/// `sized_string_u` where the escape codes of `string` can be cut out of it,
/// and `None` where one of them would split a character.
pub fn try_sized_string_u(string: &str, xsize: usize) -> (r: Option<String>)
    ensures
        match r {
            Some(s) => ansi_cuttable(string@) && s@ == sized_text(string@, xsize as int),
            None => !ansi_cuttable(string@),
        },
{
    let ranges = ansi_ranges(string.as_bytes());
    let ghost b = string.spec_bytes();
    let mut i: usize = 0;
    while i < ranges.len()
        invariant
            i <= ranges@.len(),
            ranges@ == ansi_matches(b),
            b == string.spec_bytes(),
            b == encode_utf8(string@),
            forall|k: int|
                #![trigger ranges@[k]]
                0 <= k < i ==> is_char_boundary(b, ranges@[k].0 as int) && is_char_boundary(
                    b,
                    ranges@[k].1 as int,
                ),
        decreases ranges.len() - i,
    {
        let (s, e) = ranges[i];
        assert(ranges@[i as int] == (s, e));
        if !string.is_char_boundary(s) || !string.is_char_boundary(e) {
            return None;
        }
        i += 1;
    }
    Some(sized_string_u(string, xsize))
}

/// The characters of `cs` that `sized_string` keeps: a character is added
/// while the text so far is narrower than `xsize - 1` columns.
pub open spec fn sized_prefix(cs: Seq<char>, xsize: int) -> Seq<char>
    decreases cs.len(),
{
    if cs.len() == 0 {
        Seq::empty()
    } else {
        let acc = sized_prefix(cs.drop_last(), xsize);
        if display_width(acc) + 1 >= xsize {
            acc
        } else {
            acc.push(cs.last())
        }
    }
}

/// Cuts `string` so that it is narrower than `xsize` columns.
pub fn sized_string(string: &str, xsize: u16) -> (r: String)
    ensures
        r@ == sized_prefix(string@, xsize as int),
{
    let cs = str_to_chars(string);
    let mut acc: Vec<char> = Vec::new();
    let mut i: usize = 0;
    assert(cs@.take(0) =~= Seq::<char>::empty());
    while i < cs.len()
        invariant
            i <= cs@.len(),
            acc@ == sized_prefix(cs@.take(i as int), xsize as int),
        decreases cs.len() - i,
    {
        let s = chars_to_string(&acc);
        let w = str_width(s.as_str());
        assert(cs@.take(i + 1).drop_last() =~= cs@.take(i as int));
        if w as u128 + 1 < xsize as u128 {
            acc.push(cs[i]);
        }
        i += 1;
    }
    assert(cs@.take(i as int) =~= cs@);
    chars_to_string(&acc)
}

/// `s` padded with spaces to at least `n` characters, as a string written
/// with a width of `n` is.
pub open spec fn padded(s: Seq<char>, n: nat) -> Seq<char> {
    if s.len() < n {
        s + spaces((n - s.len()) as nat)
    } else {
        s
    }
}

/// Pads `s` with spaces to at least `n` characters.
pub fn pad_chars(s: &str, n: usize) -> (r: String)
    ensures
        r@ == padded(s@, n as nat),
{
    let mut out = str_to_chars(s);
    let ghost start = out@;
    let mut k: usize = out.len();
    while k < n
        invariant
            start.len() <= k <= n || (start.len() == k && k >= n),
            out@ == start + spaces((k - start.len()) as nat),
        decreases n - k,
    {
        out.push(' ');
        k += 1;
        assert(out@ =~= start + spaces((k - start.len()) as nat));
    }
    assert(start.len() >= n ==> out@ =~= start);
    chars_to_string(&out)
}

/// Whether `s` begins with `p`.
pub open spec fn begins_with(s: Seq<char>, p: Seq<char>) -> bool {
    p.len() <= s.len() && s.take(p.len() as int) == p
}

fn begins(s: &Vec<char>, p: &str) -> (r: bool)
    ensures
        r == begins_with(s@, p@),
{
    let pc = str_to_chars(p);
    if pc.len() > s.len() {
        return false;
    }
    let mut i: usize = 0;
    while i < pc.len()
        invariant
            i <= pc@.len(),
            pc@.len() <= s@.len(),
            pc@ == p@,
            forall|k: int| 0 <= k < i ==> s@[k] == pc@[k],
        decreases pc.len() - i,
    {
        if s[i] != pc[i] {
            assert(s@.take(pc@.len() as int)[i as int] != p@[i as int]);
            return false;
        }
        i += 1;
    }
    assert(s@.take(pc@.len() as int) =~= p@);
    true
}

/// What sets the terminal's title to `hunter: ` and `title` in a terminal
/// named `term`: the window title in xterm, screen and tmux, and tmux's
/// window name as well.
pub open spec fn title_text(term: Seq<char>, title: Seq<char>) -> Seq<char> {
    let window = if begins_with(term, "xterm"@) || begins_with(term, "screen"@) || begins_with(term, "tmux"@) {
        "\x1b]2;hunter: "@ + title + "\x1b\\"@
    } else {
        Seq::empty()
    };
    let tmux = if begins_with(term, "tmux"@) {
        "\x1bkhunter: "@ + title + "\x1b\\"@
    } else {
        Seq::empty()
    };
    window + tmux
}

/// The escape sequences that set the terminal's title (see `title_text`).
pub fn title_sequence(term: &str, title: &str) -> (r: String)
    ensures
        r@ == title_text(term@, title@),
{
    let t = str_to_chars(term);
    let tmux = begins(&t, "tmux");
    let mut out = String::new();
    if begins(&t, "xterm") || begins(&t, "screen") || tmux {
        out.append("\x1b]2;hunter: ");
        out.append(title);
        out.append("\x1b\\");
    }
    if tmux {
        out.append("\x1bkhunter: ");
        out.append(title);
        out.append("\x1b\\");
    }
    out
}

} // verus!
