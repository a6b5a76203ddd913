use hunter::coordinates::Coordinates;
use hunter::drawing::list_drawlist;
use hunter::filerender::FileLook;
use hunter::files::{File, Files};
use hunter::listview::ListView;
use hunter::proclist::{render_proc, try_render_proc};
use hunter::tags::{TagError, Tags};
use hunter::tabview::tab_header;
use hunter::keybind::Key;
use hunter::mediaview::{media_command, media_read_step, widget_pixels, MediaCommand, MediaReader, MediaStep, ReadPhase};
use hunter::quick_actions::{actions_content, quick_key, QuickKeyStep};

const NORMAL: &str = "\x1b[38;5;7m";
const HIGHLIGHT: &str = "\x1b[38;5;10m";

fn list_of(names: &[&str], xsize: u16, ysize: u16) -> ListView<Files> {
    let dir = File::new("d", "/d", true);
    let files = names.iter().map(|n| File::new(n, &format!("/d/{}", n), false)).collect();
    ListView::new(Coordinates::new(xsize, ysize), Files::new(dir, files))
}

fn plain() -> FileLook {
    FileLook { color: None, icon: String::new() }
}

#[test]
fn running_process_line_shows_its_pid() {
    let line = render_proc("ls", 42, None, None, 20);
    let want = format!("\x1b[s{}ls{}{}\x1b[u\x1b[16C{}<42>", NORMAL, " ".repeat(18), NORMAL, HIGHLIGHT);
    assert_eq!(line, want);
}

#[test]
fn failed_process_line_shows_its_status_in_red() {
    let line = render_proc("make", 7, Some(-2), Some(false), 10);
    let want = format!("\x1b[s{}make{}{}\x1b[u\x1b[8C{}\x1b[38;5;1m-2", NORMAL, " ".repeat(6), NORMAL, HIGHLIGHT);
    assert_eq!(line, want);
}

#[test]
fn process_line_that_cannot_fit_is_refused() {
    assert_eq!(try_render_proc("ls", 123456, None, None, 3), None);
    assert_eq!(try_render_proc("ls", 42, None, None, 20), Some(render_proc("ls", 42, None, None, 20)));
}

#[test]
fn file_line_without_size_shows_err() {
    let list = list_of(&["a"], 20, 5);
    let f = &list.content.files[0];
    let line = list.render_line(f, &plain(), false, false, &Tags::new());
    let want = format!("\x1b[s{}a{}{}\x1b[u\x1b[17C{}ERR", NORMAL, " ".repeat(18), NORMAL, HIGHLIGHT);
    assert_eq!(line, want);
}

#[test]
fn tagged_selected_file_line_has_its_marks() {
    let list = list_of(&["a"], 20, 5);
    let mut f = list.content.files[0].clone();
    f.selected = true;
    f.tag = Some(true);
    f.dirsize = Some(12);
    let look = FileLook { color: Some("\x1b[38;5;4m".to_string()), icon: String::new() };
    let line = list.render_line(&f, &look, false, false, &Tags::new());
    let want = format!(
        "\x1b[s\x1b[38;5;1m*\x1b[38;5;4m\x1b[38;5;3m a{}{}\x1b[u\x1b[18C{}12",
        " ".repeat(17),
        NORMAL,
        HIGHLIGHT
    );
    assert_eq!(line, want);
}

#[test]
fn link_line_has_an_arrow_and_icon() {
    let list = list_of(&["a"], 20, 5);
    let mut f = list.content.files[0].clone();
    f.target = Some("/etc/b".to_string());
    f.dirsize = Some(3);
    let look = FileLook { color: None, icon: "#".to_string() };
    let line = list.render_line(&f, &look, true, true, &Tags::new());
    let want = format!(
        "\x1b[s{}# a{}{}\x1b[u\x1b[15C\x1b[38;5;3m--> {}{}3",
        NORMAL,
        " ".repeat(16),
        NORMAL,
        HIGHLIGHT,
        HIGHLIGHT
    );
    assert_eq!(line, want);
}

#[test]
fn tag_is_looked_up_in_loaded_tags() {
    let list = list_of(&["a", "b"], 20, 5);
    let mut tags = Tags::new();
    assert_eq!(list.content.files[0].is_tagged(&tags), Err(TagError::NotLoaded));
    tags.load_text("/d/b\n");
    assert_eq!(list.content.files[0].is_tagged(&tags), Ok(false));
    assert_eq!(list.content.files[1].is_tagged(&tags), Ok(true));
    let line = list.render_line(&list.content.files[1], &plain(), false, false, &tags);
    assert!(line.starts_with("\x1b[s\x1b[38;5;1m*"));
}

#[test]
fn list_renders_one_more_line_than_it_is_high() {
    let list = list_of(&["a", "b", "c", "e"], 20, 1);
    let looks = vec![plain(), plain(), plain(), plain()];
    let tags = Tags::new();
    let lines = list.render(&looks, false, false, &tags);
    assert_eq!(lines.len(), 2);
    assert_eq!(lines[0], list.render_line(&list.content.files[0], &plain(), false, false, &tags));
    assert_eq!(lines[1], list.render_line(&list.content.files[1], &plain(), false, false, &tags));
    assert_eq!(list.try_render(&looks, false, false, &tags), Some(lines));
}

#[test]
fn list_too_narrow_for_a_line_is_refused() {
    let list = list_of(&["a"], 2, 3);
    assert_eq!(list.try_render(&vec![plain()], false, false, &Tags::new()), None);
}

#[test]
fn drawlist_inverts_the_cursor_line_and_blanks_below() {
    let c = Coordinates::new(4, 3);
    let lines = vec!["x".to_string(), "y".to_string()];
    let out = list_drawlist(&c, &lines, 0, 1, 2);
    let want = format!(
        "\x1b[m{n}\x1b[1;1Hx\x1b[m{n}\x1b[7m\x1b[2;1Hy\x1b[m\x1b[3;1H    \x1b[4;1H    ",
        n = NORMAL
    );
    assert_eq!(out, want);
}

#[test]
fn tab_header_ends_at_the_right_with_the_shown_tab_inverted() {
    let names = vec![Some("a".to_string()), Some("bc".to_string())];
    let hc = "\x1b[38;5;7m\x1b[48;5;4m";
    let out = tab_header("H", &names, 1, 20);
    let want = format!("H{hc}\x1b[1;11H 0:a \x1b[7m1:bc\x1b[m{hc}", hc = hc);
    assert_eq!(out, want);
    let wide = tab_header("", &names, 0, 4);
    assert!(wide.starts_with(&format!("{}\x1b[1;0H \x1b[7m0:a", hc)));
}

#[test]
fn quick_action_keys() {
    assert_eq!(quick_key(Key::Char('a'), 0, false), QuickKeyStep::Finish);
    assert_eq!(quick_key(Key::Char('b'), 10, false), QuickKeyStep::Finish);
    assert_eq!(quick_key(Key::Ctrl('c'), 0, false), QuickKeyStep::Finish);
    assert_eq!(quick_key(Key::Esc, 0, false), QuickKeyStep::Finish);
    assert_eq!(quick_key(Key::Char('n'), 0, false), QuickKeyStep::Undefined);
    assert_eq!(quick_key(Key::Up, 0, false), QuickKeyStep::Undefined);
    assert_eq!(quick_key(Key::Char('f'), 0, false), QuickKeyStep::RunSelected);
    assert_eq!(quick_key(Key::Char('3'), 0, false), QuickKeyStep::Select(3));
    assert_eq!(quick_key(Key::Char('3'), 3, false), QuickKeyStep::Run(3));
    assert_eq!(quick_key(Key::Char('3'), 3, true), QuickKeyStep::ToggleFold);
    assert_eq!(quick_key(Key::Char('c'), 0, false), QuickKeyStep::Select(11));
    assert_eq!(quick_key(Key::Char('w'), 0, false), QuickKeyStep::Ignore);
}

#[test]
fn quick_action_group_text() {
    let actions = vec![
        ("Open".to_string(), vec![]),
        ("Find".to_string(), vec!["pattern".to_string(), "depth".to_string()]),
    ];
    assert_eq!(
        actions_content("UniActions", &actions),
        "\x1b[48;5;12mUniActions\n\x1b[38;5;10mOpen\n\x1b[38;5;10mFind:pattern?:depth?\n"
    );
}

#[test]
fn media_player_commands() {
    assert_eq!(media_command("q"), MediaCommand::Quit);
    assert_eq!(media_command(">"), MediaCommand::SeekForward);
    assert_eq!(media_command("<"), MediaCommand::SeekBackward);
    assert_eq!(media_command("p"), MediaCommand::Play);
    assert_eq!(media_command("a"), MediaCommand::Pause);
    assert_eq!(media_command("m"), MediaCommand::Mute);
    assert_eq!(media_command("u"), MediaCommand::Unmute);
    assert_eq!(media_command("xy"), MediaCommand::Resize);
    assert_eq!(media_command("qq"), MediaCommand::Ignore);
    assert_eq!(media_command(""), MediaCommand::Ignore);
}

#[test]
fn half_blocks_hold_two_pixels_per_cell() {
    assert_eq!(widget_pixels(true, 10, 5, 100, 200), (10, 10));
    assert_eq!(widget_pixels(false, 10, 5, 100, 200), (100, 200));
}

#[test]
fn media_output_gathers_frames() {
    let st = MediaReader::new();
    let (st, s1) = media_read_step(st, "AB\n");
    assert!(matches!(s1, MediaStep::Wait));
    let (st, _) = media_read_step(st, "CD\n");
    let (st, _) = media_read_step(st, "\n");
    assert_eq!(st.phase, ReadPhase::Position);
    let (st, _) = media_read_step(st, " 12\n");
    assert_eq!(st.position, 12);
    let (st, s2) = media_read_step(st, "300\n");
    match s2 {
        MediaStep::Show(frame, pos, dur) => {
            assert_eq!(frame, vec!["AB\n".to_string(), "CD\n".to_string()]);
            assert_eq!((pos, dur), (12, 300));
        }
        other => panic!("{:?}", other),
    }
    assert_eq!(st.phase, ReadPhase::Frame);
    assert!(st.frame.is_empty());
    let (st, _) = media_read_step(st, "\n");
    let (_, s3) = media_read_step(st, "soon\n");
    assert!(matches!(s3, MediaStep::Stop));
}
