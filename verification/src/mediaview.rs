//! What the media preview shows besides the picture: the kind of media, the
//! play time and the mute and autoplay marks.
use vstd::prelude::*;
use crate::text::{chars_eq, parse_unsigned, parse_unsigned_chars, str_to_chars, trim, trim_chars};

verus! {

/// The kinds of media the previewer plays.
#[derive(Clone, Copy, Debug, PartialEq, Eq, Structural)]
pub enum MediaType {
    Video,
    Audio,
}

impl MediaType {
    /// The name the previewer is given for the kind.
    pub fn to_str(&self) -> (r: &'static str)
        ensures
            r@ == (match self {
                MediaType::Video => "video"@,
                MediaType::Audio => "audio"@,
            }),
    {
        match self {
            MediaType::Video => "video",
            MediaType::Audio => "audio",
        }
    }
}

pub open spec fn digit_char(d: nat) -> char {
    ('0' as u8 + d) as char
}

/// The decimal digits of `n`, at least two.
pub open spec fn two_digits(n: nat) -> Seq<char>
    decreases n,
{
    if n < 10 {
        seq!['0', digit_char(n)]
    } else if n < 100 {
        seq![digit_char(n / 10), digit_char(n % 10)]
    } else {
        two_digits(n / 10).push(digit_char(n % 10))
    }
}

/// A play time of `secs` seconds as `hh:mm:ss`.
pub open spec fn secs_text(secs: nat) -> Seq<char> {
    two_digits(secs / 3600) + seq![':'] + two_digits((secs / 60) % 60) + seq![':'] + two_digits(
        secs % 60,
    )
}

fn push_two_digits(out: &mut Vec<char>, n: usize)
    ensures
        final(out)@ == old(out)@ + two_digits(n as nat),
    decreases n,
{
    if n < 10 {
        out.push('0');
        out.push(((n as u8) + ('0' as u8)) as char);
        assert(final(out)@ =~= old(out)@ + two_digits(n as nat)) by {
            assert(((n as u8) + ('0' as u8)) as char == digit_char(n as nat));
        }
    } else if n < 100 {
        out.push((((n / 10) as u8) + ('0' as u8)) as char);
        out.push((((n % 10) as u8) + ('0' as u8)) as char);
        assert(final(out)@ =~= old(out)@ + two_digits(n as nat));
    } else {
        push_two_digits(out, n / 10);
        out.push((((n % 10) as u8) + ('0' as u8)) as char);
        assert(final(out)@ =~= old(out)@ + two_digits(n as nat));
    }
}

/// A play time of `secs` seconds as `hh:mm:ss`, each part with at least two digits.
pub fn format_secs(secs: usize) -> (r: String)
    ensures
        r@ == secs_text(secs as nat),
{
    let hours = if secs >= 60 * 60 {
        (secs / 60) / 60
    } else {
        0
    };
    let mins = if secs >= 60 {
        (secs / 60) % 60
    } else {
        0
    };
    assert((secs as nat / 60) / 60 == secs as nat / 3600) by (nonlinear_arith);
    let mut out: Vec<char> = Vec::new();
    push_two_digits(&mut out, hours);
    out.push(':');
    push_two_digits(&mut out, mins);
    out.push(':');
    push_two_digits(&mut out, secs % 60);
    assert(out@ =~= secs_text(secs as nat));
    crate::text::chars_to_string(&out)
}

/// A command the media player reads from its input, one per line.
#[derive(Clone, Copy, Debug, PartialEq, Eq, Structural)]
pub enum MediaCommand {
    Quit,
    SeekForward,
    SeekBackward,
    Play,
    Pause,
    Mute,
    Unmute,
    /// The widget's size follows on the next lines.
    Resize,
    /// Anything else, which the player passes over.
    Ignore,
}

/// The command a line stands for: `q` quits, `>` and `<` seek, `p` plays,
/// `a` pauses, `m` and `u` mute and unmute, `xy` announces a new size.
pub open spec fn command_of(line: Seq<char>) -> MediaCommand {
    if line == "q"@ {
        MediaCommand::Quit
    } else if line == ">"@ {
        MediaCommand::SeekForward
    } else if line == "<"@ {
        MediaCommand::SeekBackward
    } else if line == "p"@ {
        MediaCommand::Play
    } else if line == "a"@ {
        MediaCommand::Pause
    } else if line == "m"@ {
        MediaCommand::Mute
    } else if line == "u"@ {
        MediaCommand::Unmute
    } else if line == "xy"@ {
        MediaCommand::Resize
    } else {
        MediaCommand::Ignore
    }
}

fn is(line: &Vec<char>, word: &str) -> (r: bool)
    ensures
        r == (line@ == word@),
{
    chars_eq(line, &str_to_chars(word))
}

/// The command a line of the player's input stands for.
pub fn media_command(line: &str) -> (r: MediaCommand)
    ensures
        r == command_of(line@),
{
    let l = str_to_chars(line);
    if is(&l, "q") {
        MediaCommand::Quit
    } else if is(&l, ">") {
        MediaCommand::SeekForward
    } else if is(&l, "<") {
        MediaCommand::SeekBackward
    } else if is(&l, "p") {
        MediaCommand::Play
    } else if is(&l, "a") {
        MediaCommand::Pause
    } else if is(&l, "m") {
        MediaCommand::Mute
    } else if is(&l, "u") {
        MediaCommand::Unmute
    } else if is(&l, "xy") {
        MediaCommand::Resize
    } else {
        MediaCommand::Ignore
    }
}

/// The pixels a picture may fill in a widget of `xsize` by `ysize` cells
/// whose size in pixels is `xpix` by `ypix`: drawn with half blocks
/// (`unicode`), a cell holds one pixel across and two down.
pub fn widget_pixels(unicode: bool, xsize: usize, ysize: usize, xpix: usize, ypix: usize) -> (r: (usize, usize))
    requires
        unicode ==> ysize * 2 <= usize::MAX,
    ensures
        r == (if unicode {
            (xsize, (ysize * 2) as usize)
        } else {
            (xpix, ypix)
        }),
{
    if unicode {
        (xsize, ysize * 2)
    } else {
        (xpix, ypix)
    }
}

/// Which line the previewer's output gives next: a line of the frame,
/// the position or the duration.
#[derive(Clone, Copy, Debug, PartialEq, Eq, Structural)]
pub enum ReadPhase {
    Frame,
    Position,
    Duration,
}

/// Reading the previewer's output: the phase, the frame's lines so far,
/// and the position read for the frame.
#[derive(Debug)]
pub struct MediaReader {
    pub phase: ReadPhase,
    pub frame: Vec<String>,
    pub position: usize,
}

/// What the media view does after a line of the previewer's output.
#[derive(Debug)]
pub enum MediaStep {
    /// Read on.
    Wait,
    /// A frame is complete: show its lines, with the play position and the
    /// duration.
    Show(Vec<String>, usize, usize),
    /// The output could not be read: the preview stops.
    Stop,
}

/// The texts of a list of strings.
pub open spec fn texts(v: Seq<String>) -> Seq<Seq<char>> {
    v.map_values(|s: String| s@)
}

impl MediaReader {
    /// Nothing read yet.
    pub fn new() -> (r: MediaReader)
        ensures
            r.phase == ReadPhase::Frame,
            r.frame@.len() == 0,
            r.position == 0,
    {
        MediaReader { phase: ReadPhase::Frame, frame: Vec::new(), position: 0 }
    }
}

/// Follows the previewer's output line by line (each line as read, with
/// its newline): lines gather into a frame until an empty line; the next
/// line, trimmed, is the position and the one after it the duration,
/// both numbers, and then the frame is shown and a new one begins. A
/// position or duration that is no number stops the preview.
pub fn media_read_step(state: MediaReader, line: &str) -> (r: (MediaReader, MediaStep))
    ensures
        match state.phase {
            ReadPhase::Frame => if line@ == "\n"@ {
                &&& r.0.phase == ReadPhase::Position
                &&& texts(r.0.frame@) == texts(state.frame@)
                &&& r.0.position == state.position
                &&& r.1 is Wait
            } else {
                &&& r.0.phase == ReadPhase::Frame
                &&& texts(r.0.frame@) == texts(state.frame@).push(line@)
                &&& r.0.position == state.position
                &&& r.1 is Wait
            },
            ReadPhase::Position => match parse_unsigned(trim(line@), usize::MAX as int) {
                Some(n) => {
                    &&& r.0.phase == ReadPhase::Duration
                    &&& texts(r.0.frame@) == texts(state.frame@)
                    &&& r.0.position == n
                    &&& r.1 is Wait
                },
                None => r.1 is Stop,
            },
            ReadPhase::Duration => match parse_unsigned(trim(line@), usize::MAX as int) {
                Some(d) => {
                    &&& r.0.phase == ReadPhase::Frame
                    &&& r.0.frame@.len() == 0
                    &&& r.0.position == state.position
                    &&& r.1 matches MediaStep::Show(f, p, dur) && texts(f@) == texts(state.frame@)
                        && p == state.position && dur == d
                },
                None => r.1 is Stop,
            },
        },
{
    let mut state = state;
    match state.phase {
        ReadPhase::Frame => {
            let l = str_to_chars(line);
            if is(&l, "\n") {
                state.phase = ReadPhase::Position;
            } else {
                let ghost before = texts(state.frame@);
                state.frame.push(String::from_str(line));
                assert(texts(state.frame@) =~= before.push(line@));
            }
            (state, MediaStep::Wait)
        },
        ReadPhase::Position => {
            let t = trim_chars(&str_to_chars(line));
            match parse_unsigned_chars(&t, usize::MAX) {
                Some(n) => {
                    state.position = n;
                    state.phase = ReadPhase::Duration;
                    (state, MediaStep::Wait)
                },
                None => (state, MediaStep::Stop),
            }
        },
        ReadPhase::Duration => {
            let t = trim_chars(&str_to_chars(line));
            match parse_unsigned_chars(&t, usize::MAX) {
                Some(d) => {
                    let mut frame: Vec<String> = Vec::new();
                    std::mem::swap(&mut frame, &mut state.frame);
                    let p = state.position;
                    state.phase = ReadPhase::Frame;
                    (state, MediaStep::Show(frame, p, d))
                },
                None => (state, MediaStep::Stop),
            }
        },
    }
}

} // verus!
