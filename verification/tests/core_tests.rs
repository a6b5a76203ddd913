use hunter::config::{argv_config_from_flags, detect_g_mode, ArgvConfig, Config};
use hunter::coordinates::Coordinates;
use hunter::dirty::{AsyncDirtyBit, DirtyBit, Dirtyable};
use hunter::foldview::{Foldable, LogEntry};
use hunter::hbox::HBox;
use hunter::listview::ListView;
use hunter::mediaview::{format_secs, MediaType};
use hunter::minibuffer::{History, HistoryError};
use hunter::tabview::TabView;
use hunter::term::{
    color_green, color_orange, goto_xy, goto_xy_u, move_bottom, reset, sized_string,
    sized_string_u, try_sized_string_u,
};
use hunter::trait_ext::ExtractResult;

#[test]
fn graphics_mode_follows_the_terminal() {
    assert_eq!(detect_g_mode("xterm-kitty"), "kitty");
    assert_eq!(detect_g_mode("xterm"), "sixel");
    assert_eq!(detect_g_mode("screen"), "unicode");
}

#[test]
fn default_config() {
    let c = Config::default("xterm-kitty");
    assert!(c.animation);
    assert_eq!(c.animation_refresh_frequency, 60);
    assert!(!c.show_hidden);
    assert_eq!(c.select_cmd, "find -type f | fzf -m");
    assert_eq!(c.cd_cmd, "find -type d | fzf");
    assert_eq!(c.media_previewer, "hunter-media");
    assert_eq!(c.ratios, vec![20, 30, 49]);
    assert_eq!(c.graphics, "kitty");
}

#[test]
fn config_file_lines_set_options() {
    let text = "animation=off\nshow_hidden=on\nratios=10,20:70\nicons=maybe\nbogus\ngraphics=kitty\nanimation_refresh_frequency=30\nselect_cmd=fzf=x\n";
    assert!(Config::readable(text));
    let argv = ArgvConfig::new();
    let (c, errors) = Config::load(Some(text), None, "xterm", &argv);
    assert!(!c.animation);
    assert!(c.show_hidden);
    assert_eq!(c.ratios, vec![10, 20, 70]);
    assert!(!c.icons);
    assert_eq!(c.graphics, "kitty");
    assert_eq!(c.animation_refresh_frequency, 30);
    // a value holding another '=' is refused
    assert_eq!(c.select_cmd, "find -type f | fzf -m");
    assert_eq!(errors, vec!["icons=maybe".to_string(), "bogus".to_string(), "select_cmd=fzf=x".to_string()]);
}

#[test]
fn bad_ratios_are_ignored() {
    let argv = ArgvConfig::new();
    let (c, _) = Config::load(Some("ratios=10,20\n"), None, "xterm", &argv);
    assert_eq!(c.ratios, vec![20, 30, 49]);
    let (c, _) = Config::load(Some("ratios=0,0,0\n"), None, "xterm", &argv);
    assert_eq!(c.ratios, vec![20, 30, 49]);
    let (c, _) = Config::load(Some("ratios=1,2,70000\n"), None, "xterm", &argv);
    assert_eq!(c.ratios, vec![20, 30, 49]);
    assert!(!Config::readable("ratios=1,,2\n"));
}

#[test]
fn command_line_overrides_the_file() {
    let argv = argv_config_from_flags(true, false, true, Some("auto"), "xterm-kitty");
    assert_eq!(argv.animation, Some(false));
    assert_eq!(argv.show_hidden, None);
    assert_eq!(argv.icons, Some(true));
    assert_eq!(argv.graphics.as_deref(), Some("kitty"));
    let (c, _) = Config::load(Some("animation=on\nicons=off\n"), None, "xterm", &argv);
    assert!(!c.animation);
    assert!(c.icons);
    assert_eq!(c.graphics, "kitty");
}

#[test]
fn missing_config_file_keeps_defaults() {
    let argv = ArgvConfig::new();
    let (c, errors) = Config::load(None, Some("[movement]\nUp=u\n"), "xterm", &argv);
    assert!(errors.is_empty());
    assert!(c.animate());
    assert!(!c.media_available());
}

#[test]
fn color_sequences() {
    assert_eq!(color_green(), "\x1b[38;5;2m");
    assert_eq!(color_orange(), "\x1b[38;5;220m");
    assert_eq!(reset(), "\x1b[m");
    assert_eq!(goto_xy(3, 7), "\x1b[7;3H");
    assert_eq!(goto_xy_u(0, 0), "\x1b[1;1H");
    assert_eq!(move_bottom(40), "\x1b[40;1H");
}

#[test]
fn sized_string_u_pads_and_cuts() {
    assert_eq!(sized_string_u("abc", 5), "abc  ");
    // the token that does not fit is filled up to one column more
    assert_eq!(sized_string_u("abcdefgh", 5), "abcdef");
    // escape codes take no room
    assert_eq!(sized_string_u("\x1b[31mab\x1b[0m", 4), "\x1b[31mab\x1b[0m  ");
    assert_eq!(try_sized_string_u("xy", 3), Some("xy ".to_string()));
}

#[test]
fn sized_string_cuts_below_the_width() {
    assert_eq!(sized_string("abcdef", 4), "abc");
    assert_eq!(sized_string("ab", 10), "ab");
}

#[test]
fn play_time_format() {
    assert_eq!(format_secs(0), "00:00:00");
    assert_eq!(format_secs(3725), "01:02:05");
    assert_eq!(format_secs(360000), "100:00:00");
    assert_eq!(MediaType::Video.to_str(), "video");
    assert_eq!(MediaType::Audio.to_str(), "audio");
}

#[test]
fn dirty_bits() {
    let mut d = DirtyBit::new();
    assert!(!d.is_dirty());
    d.set_dirty();
    assert!(d.is_dirty());
    d.set_clean();
    assert!(!d.is_dirty());
    let a = AsyncDirtyBit::new();
    let b = a.clone();
    assert!(!a.is_dirty());
    b.set_dirty();
    assert!(a.is_dirty());
    a.set_clean();
    assert!(!b.is_dirty());
}

#[test]
fn extract_either_side() {
    let ok: Result<u32, u32> = Ok(3);
    let err: Result<u32, u32> = Err(4);
    assert_eq!(ok.extract(), 3);
    assert_eq!(err.extract(), 4);
}

#[test]
fn tabs_cycle() {
    let mut t: TabView<u32> = TabView::new();
    t.push_widget(10);
    t.push_widget(11);
    t.push_widget(12);
    t.next_tab_();
    assert_eq!(t.active, 1);
    t.next_tab_();
    t.next_tab_();
    assert_eq!(t.active, 0);
    t.prev_tab_();
    assert_eq!(t.active, 2);
    t.next_tab_();
    assert_eq!(t.active, 0);
    assert!(t.goto_tab_(2));
    assert!(!t.goto_tab_(3));
    assert_eq!(*t.active_tab_(), 12);
    t.close_tab_();
    assert_eq!(t.widgets, vec![10, 11]);
    assert_eq!(t.active, 1);
    assert_eq!(t.pop_widget(), Some(11));
    assert_eq!(t.active, 0);
}

#[test]
fn hbox_columns() {
    let mut h: HBox<u32> = HBox::new(Coordinates::new_at(100, 20, 1, 2));
    assert!(h.calculate_equal_ratios().is_err());
    h.push_widget(1);
    h.push_widget(2);
    h.push_widget(3);
    assert_eq!(h.calculate_equal_ratios().unwrap(), vec![33, 33, 33]);
    h.set_ratios(vec![20, 30, 49]);
    let c = h.calculate_coordinates().unwrap();
    assert_eq!(c[0], Coordinates::new_at(20, 20, 1, 2));
    assert_eq!(c[1], Coordinates::new_at(30, 20, 22, 2));
    assert_eq!(c[2], Coordinates::new_at(49, 20, 53, 2));
    assert!(h.set_active(2).is_ok());
    assert_eq!(h.active_widget(), Some(&3));
    assert!(h.set_active(3).is_err());
    assert_eq!(h.replace_widget(0, 9), 1);
    assert_eq!(h.widgets, vec![9, 2, 3]);
}

fn log_entry(msg: &str) -> LogEntry {
    LogEntry::from_message("2020-01-01 10:00", false, msg, Some("because"), None)
}

#[test]
fn log_entry_lines() {
    let e = log_entry("first\nsecond");
    assert!(e.is_folded());
    assert_eq!(e.lines(), 1);
    assert_eq!(e.description(), "\x1b[38;5;2m2020-01-01 10:00\x1b[38;5;1m: first");
    assert_eq!(e.lines, 3);
    assert_eq!(e.render().len(), 1);
    let mut e = e;
    e.toggle_fold();
    assert_eq!(e.lines(), 3);
    assert_eq!(e.render().len(), 3);
}

#[test]
fn folds_in_a_list() {
    let mut entries = vec![log_entry("a"), log_entry("b"), log_entry("c")];
    entries[1].toggle_fold();
    let mut view = ListView::new(Coordinates::new_at(80, 10, 1, 1), entries);
    assert_eq!(view.len(), 4);
    assert_eq!(view.fold_start_pos(2), 3);
    view.set_selection(2);
    assert_eq!(view.current_fold(), Some(1));
    assert!(view.toggle_fold().is_ok());
    assert_eq!(view.get_selection(), 1);
    assert_eq!(view.current_fold(), Some(1));
}

#[test]
fn list_cursor_scrolls() {
    let lines: Vec<LogEntry> = (0..20).map(|i| log_entry(&format!("{}", i))).collect();
    let mut view = ListView::new(Coordinates::new_at(80, 5, 1, 1), lines);
    view.move_up();
    assert_eq!((view.selection, view.offset), (0, 0));
    for _ in 0..6 {
        view.move_down();
    }
    assert_eq!((view.selection, view.offset), (6, 2));
    view.move_bottom();
    assert_eq!((view.selection, view.offset), (19, 15));
    view.move_down();
    assert_eq!(view.selection, 19);
    view.page_up();
    assert_eq!((view.selection, view.offset), (15, 15));
    view.move_top();
    assert_eq!((view.selection, view.offset), (0, 0));
    view.page_down();
    assert_eq!((view.selection, view.offset), (4, 0));
}

#[test]
fn history_steps_back_and_forth() {
    let mut h = History::new();
    assert_eq!(h.get_prev("cmd"), Err(HistoryError::NoSuchKind));
    h.add("cmd", "ls");
    h.add("cmd", "pwd");
    h.add("search", "foo");
    assert_eq!(h.get_prev("cmd").unwrap(), "pwd");
    assert_eq!(h.get_prev("cmd").unwrap(), "ls");
    h.reset();
    assert_eq!(h.get_next("cmd").unwrap(), "ls");
    assert_eq!(h.get_next("cmd").unwrap(), "pwd");
    assert_eq!(h.get_next("cmd").unwrap(), "ls");
    assert_eq!(h.save_text(), "cmd:ls\ncmd:pwd\nsearch:foo\n");
}

#[test]
fn history_file_round_trip() {
    let mut h = History::new();
    h.load_text("cmd:ls -l\nno colon\nsearch:a:b\ncmd:pwd\n");
    assert_eq!(h.save_text(), "cmd:ls -l\ncmd:pwd\nsearch:a:b\n");
    let mut again = History::new();
    again.load_text(&h.save_text());
    assert_eq!(again.save_text(), h.save_text());
    // a loaded history is not read twice
    h.load_text("other:x\n");
    assert_eq!(h.save_text(), "cmd:ls -l\ncmd:pwd\nsearch:a:b\n");
}

#[test]
fn graphics_mode_and_media_autostart_keys() {
    let argv = ArgvConfig::new();
    let (c, rejected) = Config::load(Some("graphics_mode=kitty\nmedia_autostart=on\n"), None, "xterm", &argv);
    assert_eq!(c.graphics, "kitty");
    assert!(c.media_autoplay);
    assert!(rejected.is_empty());
    let (c, rejected) = Config::load(Some("graphics_mode=unicode\n"), None, "xterm-kitty", &argv);
    assert_eq!(c.graphics, "unicode");
    assert!(rejected.is_empty());
}

#[test]
fn escape_codes_take_no_columns_when_fitting() {
    assert_eq!(sized_string_u("\x1b[31mab", 3), "\x1b[31mab ");
    assert_eq!(sized_string_u("ab", 3), "ab ");
}

#[test]
fn terminal_title_by_terminal() {
    assert_eq!(hunter::term::title_sequence("xterm-256color", "~/src"), "\x1b]2;hunter: ~/src\x1b\\");
    assert_eq!(
        hunter::term::title_sequence("tmux-256color", "/"),
        "\x1b]2;hunter: /\x1b\\\x1bkhunter: /\x1b\\"
    );
    assert_eq!(hunter::term::title_sequence("linux", "/"), "");
}
