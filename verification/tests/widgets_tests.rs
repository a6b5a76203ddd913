use hunter::actions::{FileListAction, MiniBufferAction, Movement};
use hunter::browser::{
    chosen_dir, chosen_paths, counter, footer_line, header_line, select_plan, space_line, space_of,
    try_footer_line, EnterStep, Navigation, SelectPlan, TurboCd, TurboStep,
};
use hunter::coordinates::Coordinates;
use hunter::filelist::FileListStep;
use hunter::files::{File, Files, Kind, Meta, SortBy};
use hunter::listview::ListView;
use hunter::minibuffer::{History, MiniBuffer, MiniBufferEvent, MiniBufferSignal};
use hunter::quick_actions::{letter_to_num, num_to_letter, QuickPath};
use hunter::raw_alloc::RawAlloc;
use hunter::stats::{Filesystem, FsExt, FsStat};
use hunter::tags::{TagError, Tags};
use hunter::textview::TextView;

fn entry(name: &str, dir: bool) -> File {
    File::new(name, &format!("/d/{}", name), dir)
}

fn list(names: &[(&str, bool)]) -> ListView<Files> {
    let files: Vec<File> = names.iter().map(|(n, d)| entry(n, *d)).collect();
    let dir = File::new_from_path("/d", true);
    let mut content = Files::new(dir, files);
    content.recalculate_len();
    ListView::new(Coordinates::new(40, 10), content)
}

fn typed(mb: &mut MiniBuffer, text: &str) {
    for c in text.chars() {
        mb.do_action(&MiniBufferAction::InsertChar(c));
    }
}

#[test]
fn raw_buffers_collect_bytes() {
    let mut a = RawAlloc::string(8);
    a.write(b"abc");
    a.write(b"de");
    assert_eq!(a.finalize_string(), "abcde");
    let mut p = RawAlloc::pathbuf(4);
    p.write(b"/tmp");
    assert_eq!(p.finalize_pathbuf(), b"/tmp".to_vec());
}

#[test]
fn file_system_holding_a_path() {
    let root = Filesystem {
        fs_mounted_from: "/dev/sda1".to_string(),
        fs_mounted_on: "/".to_string(),
        total: 4096,
        avail: 2048,
    };
    let home = Filesystem {
        fs_mounted_from: "/dev/sda2".to_string(),
        fs_mounted_on: "/home".to_string(),
        total: 1024,
        avail: 512,
    };
    let stat = FsStat::new(vec![root, home]);
    let fs = stat.find_fs("/home/user/file").unwrap();
    assert_eq!(fs.fs_mounted_on, "/home");
    assert_eq!(fs.get_dev(), Some("sda2: ".to_string()));
    assert_eq!(fs.get_total(), systemstat::ByteSize::b(1024).to_string_as(false));
    assert_eq!(fs.get_free(), systemstat::ByteSize::b(512).to_string_as(false));
    let other = stat.find_fs("/etc/passwd").unwrap();
    assert_eq!(other.fs_mounted_on, "/");
}

#[test]
fn quick_action_names() {
    let path = "/actions/Open with?Program!.sh".to_string();
    assert_eq!(path.get_title(), "Open with");
    assert_eq!(path.get_queries(), vec!["Program".to_string()]);
    assert!(path.get_sync());
    let plain = "/actions/Archive.sh".to_string();
    assert_eq!(plain.get_title(), "Archive");
    assert!(plain.get_queries().is_empty());
    assert!(!plain.get_sync());
    assert_eq!(num_to_letter(3), "3");
    assert_eq!(num_to_letter(10), "b");
    assert_eq!(num_to_letter(40), "..");
    assert_eq!(letter_to_num('b'), Some(10));
    assert_eq!(letter_to_num('7'), Some(7));
    assert_eq!(letter_to_num('a'), None);
}

#[test]
fn text_view_scrolls_within_the_text() {
    let mut tv = TextView::new_blank(Coordinates::new(20, 5));
    let text: Vec<String> = (0..20).map(|i| format!("line {}", i)).collect();
    tv.set_lines(text);
    tv.scroll_down();
    assert_eq!(tv.offset, 1);
    tv.page_down();
    assert_eq!(tv.offset, 5);
    tv.scroll_bottom();
    assert_eq!(tv.offset, 14);
    tv.scroll_down();
    assert_eq!(tv.offset, 14);
    tv.page_up();
    assert_eq!(tv.offset, 10);
    tv.scroll_top();
    assert_eq!(tv.offset, 0);
    tv.scroll_up();
    assert_eq!(tv.offset, 0);
    tv.movement(&Movement::Down(3));
    assert_eq!(tv.offset, 3);
    tv.movement(&Movement::Up(5));
    assert_eq!(tv.offset, 0);
}

#[test]
fn text_view_following_the_end() {
    let mut tv = TextView::new_blank(Coordinates::new(20, 5));
    tv.toggle_follow();
    tv.set_text("a\nb\nc\nd\ne\nf\ng\nh\n");
    assert_eq!(tv.lines.len(), 8);
    assert_eq!(tv.offset, 2);
}

#[test]
fn text_view_footer_and_limit() {
    let lines: Vec<String> = (0..10).map(|i| format!("{}", i)).collect();
    let tv = TextView::from_lines(Coordinates::new_at(30, 5, 1, 1), lines, 3);
    assert_eq!(tv.lines.len(), 4);
    assert!(tv.limited);
    assert_eq!(tv.render_footer(), format!("{}0 - 3 / 3", hunter::term::goto_xy(21, 6)));
    let draw = tv.get_drawlist();
    assert!(draw.starts_with(&hunter::term::reset()));
    assert!(draw.contains(&hunter::term::goto_xy(1, 2)));
}

#[test]
fn prompt_editing() {
    let mut mb = MiniBuffer::new(80, 24);
    mb.start_query("exec", false);
    typed(&mut mb, "ls -l");
    assert_eq!(mb.input_text(), "ls -l");
    assert_eq!(mb.position, 5);
    mb.do_action(&MiniBufferAction::CursorLeft);
    mb.do_action(&MiniBufferAction::CursorLeft);
    mb.do_action(&MiniBufferAction::BackwardDeleteChar);
    assert_eq!(mb.input_text(), "ls-l");
    assert_eq!(mb.position, 2);
    mb.do_action(&MiniBufferAction::DeleteChar);
    assert_eq!(mb.input_text(), "lsl");
    mb.do_action(&MiniBufferAction::CursorToEnd);
    assert_eq!(mb.position, 3);
    mb.do_action(&MiniBufferAction::InsertTab(2));
    assert_eq!(mb.input_text(), "lsl$1");
    assert_eq!(mb.position, 5);
    mb.do_action(&MiniBufferAction::CursorToStart);
    assert_eq!(mb.position, 0);
    mb.do_action(&MiniBufferAction::ClearLine);
    assert_eq!(mb.input_text(), "");
}

#[test]
fn prompt_deletes_words() {
    let mut mb = MiniBuffer::new(80, 24);
    typed(&mut mb, "cp /usr/local/bin");
    mb.do_action(&MiniBufferAction::DeleteWord);
    assert_eq!(mb.input_text(), "cp /usr/local/");
    mb.do_action(&MiniBufferAction::DeleteWord);
    assert_eq!(mb.input_text(), "cp /usr/local");
    mb.do_action(&MiniBufferAction::DeleteWord);
    assert_eq!(mb.input_text(), "cp /usr/");
    typed(&mut mb, "x  ");
    mb.do_action(&MiniBufferAction::DeleteWord);
    assert_eq!(mb.input_text(), "cp /usr/x");
    assert_eq!(mb.position, 9);
    let mut one = MiniBuffer::new(80, 24);
    typed(&mut one, "word");
    one.do_action(&MiniBufferAction::DeleteWord);
    assert_eq!(one.input_text(), "");
    assert_eq!(one.position, 0);
}

#[test]
fn prompt_signals() {
    let mut mb = MiniBuffer::new(80, 24);
    mb.start_query("search", true);
    assert_eq!(
        mb.on_action(&MiniBufferAction::InsertChar('a')),
        MiniBufferSignal::Updated("a".to_string())
    );
    assert_eq!(mb.on_action(&MiniBufferAction::CursorLeft), MiniBufferSignal::Edited);
    assert_eq!(mb.on_action(&MiniBufferAction::Finish), MiniBufferSignal::Finished);
    assert_eq!(mb.on_action(&MiniBufferAction::Cancel), MiniBufferSignal::Cancelled);
    assert_eq!(mb.input_text(), "");
    assert_eq!(mb.finish_query(), None);
}

#[test]
fn prompt_history_steps() {
    let mut mb = MiniBuffer::new(80, 24);
    mb.start_query("cmd", false);
    typed(&mut mb, "one");
    mb.do_action(&MiniBufferAction::Finish);
    mb.start_query("cmd", false);
    typed(&mut mb, "two");
    mb.do_action(&MiniBufferAction::Finish);
    mb.start_query("cmd", false);
    mb.do_action(&MiniBufferAction::HistoryUp);
    assert_eq!(mb.input_text(), "two");
    assert_eq!(mb.position, 3);
    mb.do_action(&MiniBufferAction::HistoryUp);
    assert_eq!(mb.input_text(), "one");
    mb.do_action(&MiniBufferAction::HistoryDown);
    assert_eq!(mb.input_text(), "one");
    mb.do_action(&MiniBufferAction::HistoryDown);
    assert_eq!(mb.input_text(), "two");
    assert_eq!(mb.history.save_text(), "cmd:one\ncmd:two\n");
}

#[test]
fn prompt_completion() {
    let mut mb = MiniBuffer::new(80, 24);
    typed(&mut mb, "cat fo");
    match mb.do_action(&MiniBufferAction::Complete) {
        MiniBufferSignal::Lookup(w) => assert_eq!(w, "fo"),
        other => panic!("unexpected {:?}", other),
    }
    assert!(mb.complete_with(vec!["food".to_string(), "foo".to_string()]));
    assert_eq!(mb.input_text(), "cat foo");
    assert_eq!(mb.position, 7);
    assert_eq!(mb.do_action(&MiniBufferAction::Complete), MiniBufferSignal::Edited);
    assert_eq!(mb.input_text(), "cat food");
    assert_eq!(mb.position, 8);
    typed(&mut mb, " ");
    mb.do_action(&MiniBufferAction::Complete);
    assert_eq!(mb.input_text(), "cat food $s");
    assert!(!mb.complete_with(vec![]));
}

#[test]
fn prompt_draws_its_line() {
    let mut mb = MiniBuffer::new(80, 24);
    mb.start_query("nav", false);
    typed(&mut mb, "x");
    let expected = format!(
        "{}\u{1b}[2K{}nav: x",
        hunter::term::goto_xy(1, 24),
        hunter::term::header_color()
    );
    assert_eq!(mb.get_drawlist(), expected);
    assert_eq!(mb.cursor_column(), Some(6));
}

#[test]
fn history_text_read_back() {
    let mut h = History::new();
    h.add("cmd", "ls");
    h.add("search", "foo");
    h.add("cmd", "pwd");
    let text = h.save_text();
    let mut back = History::new();
    back.load_text(&text);
    assert_eq!(back.save_text(), text);
    assert_eq!(back.history, h.history);
}

#[test]
fn tags_file_round_trip() {
    let mut tags = Tags::new();
    let mut f = entry("a", false);
    assert_eq!(f.toggle_tag(&mut tags), Err(TagError::NotLoaded));
    tags.load_text("/x\n/d/a\n");
    assert_eq!(tags.check("/d/a"), Ok(true));
    assert_eq!(f.toggle_tag(&mut tags), Ok(()));
    assert_eq!(f.tag, Some(false));
    assert_eq!(tags.text(), "/x\n");
    assert_eq!(f.toggle_tag(&mut tags), Ok(()));
    assert_eq!(f.tag, Some(true));
    let text = tags.text();
    assert_eq!(text, "/x\n/d/a\n");
    let mut back = Tags::new();
    back.load_text(&text);
    assert_eq!(back.paths, tags.paths);
}

#[test]
fn file_list_keeps_the_chosen_file() {
    let mut lv = list(&[("b", false), ("a", false), ("dir", true)]);
    lv.content.sort();
    assert_eq!(lv.content.files[0].name, "dir");
    lv.select_file(&entry("b", false));
    assert_eq!(lv.selection, 2);
    let msg = lv.toggle_dirs_first();
    assert_eq!(msg, "Direcories first: false");
    assert_eq!(lv.selected_file().unwrap().name, "b");
    let msg = lv.cycle_sort();
    assert_eq!(msg, "Sorting by: size");
    assert_eq!(lv.content.sort, SortBy::Size);
}

#[test]
fn file_list_selection() {
    let mut lv = list(&[("a", false), ("b", false), ("c", false)]);
    assert_eq!(lv.multi_select_file(), None);
    assert!(lv.content.files[0].selected);
    assert_eq!(lv.selection, 1);
    lv.invert_selection();
    assert!(!lv.content.files[0].selected);
    assert!(lv.content.files[1].selected && lv.content.files[2].selected);
    lv.clear_selections();
    assert!(lv.content.files.iter().all(|f| !f.selected));
}

#[test]
fn file_list_search() {
    let mut lv = list(&[("Alpha", false), ("beta", false), ("ALPHABET", false)]);
    assert_eq!(lv.search_next(), Some("No search pattern set!".to_string()));
    let saved = Some("/d/Alpha".to_string());
    let (go_on, _) = lv.search_event(&MiniBufferEvent::NewInput("bet".to_string()), &saved);
    assert!(go_on);
    assert_eq!(lv.selection, 1);
    assert_eq!(lv.search_next(), None);
    assert_eq!(lv.selection, 2);
    assert_eq!(lv.search_next(), Some("Reached last search result!".to_string()));
    let (go_on, _) = lv.search_event(&MiniBufferEvent::Cancelled, &saved);
    assert!(!go_on);
    assert_eq!(lv.selection, 0);
}

#[test]
fn file_list_filter_prompt() {
    let mut lv = list(&[("apple", false), ("banana", false), ("cherry", false)]);
    let saved = Some("/d/banana".to_string());
    let (go_on, _) = lv.filter_event(&MiniBufferEvent::NewInput("an".to_string()), &saved, &None);
    assert!(go_on);
    assert_eq!(lv.content.filter, Some("an".to_string()));
    assert_eq!(lv.content.len, 3);
    let (go_on, msg) = lv.filter_event(&MiniBufferEvent::Done("zzz".to_string()), &saved, &None);
    assert!(!go_on);
    assert_eq!(msg, Some("Filtering with: \"zzz\"".to_string()));
    let (_, _) = lv.filter_event(&MiniBufferEvent::Cancelled, &saved, &None);
    assert_eq!(lv.content.filter, None);
    assert_eq!(lv.selection, 1);
    let mut empty = list(&[]);
    empty.set_filter(Some("x".to_string()));
    assert_eq!(empty.content.len, 1);
    assert_eq!(empty.content.files[0].kind, Kind::Placeholder);
    assert_eq!(empty.content.files[0].name, "<empty>");
}

#[test]
fn file_list_actions() {
    let mut lv = list(&[("a", false), ("b", false)]);
    let mut tags = Tags::new();
    assert_eq!(lv.do_action(&FileListAction::Search, &mut tags), FileListStep::Search);
    assert_eq!(lv.do_action(&FileListAction::Filter, &mut tags), FileListStep::Filter);
    assert_eq!(
        lv.do_action(&FileListAction::ToggleTag, &mut tags),
        FileListStep::TagFailed(TagError::NotLoaded)
    );
    assert_eq!(
        lv.do_action(&FileListAction::ToggleHidden, &mut tags),
        FileListStep::Done(Some("Showing hidden files: false".to_string()))
    );
    assert_eq!(
        lv.do_action(&FileListAction::FilterSelection, &mut tags),
        FileListStep::Done(None)
    );
    assert!(lv.content.filter_selected);
}

#[test]
fn file_list_mtime_steps() {
    let mut lv = list(&[("old", false), ("new", false)]);
    lv.content.files[0].meta = Some(Meta { size: 1, mtime: 100, mode: 0o644, uid: 0, gid: 0 });
    lv.content.files[1].meta = Some(Meta { size: 1, mtime: 200, mode: 0o644, uid: 0, gid: 0 });
    lv.select_next_mtime();
    assert!(lv.seeking);
    assert_eq!(lv.selected_file().unwrap().name, "new");
    lv.select_next_mtime();
    assert_eq!(lv.selected_file().unwrap().name, "old");
}

#[test]
fn navigation_enters_and_leaves() {
    let mut nav = Navigation::new(File::new_from_path("/home/user", true));
    let dir = File::new_from_path("/home/user/src", true);
    match nav.enter_dir(&dir, Some(true)) {
        EnterStep::Entered(Some(left)) => assert_eq!(left.path, "/home/user"),
        other => panic!("unexpected {:?}", other),
    }
    assert_eq!(nav.cwd.path, "/home/user/src");
    match nav.enter_dir(&dir, Some(false)) {
        EnterStep::Denied(m) => assert!(m.ends_with("Stop right there, cowboy! Check your permisions!")),
        other => panic!("unexpected {:?}", other),
    }
    match nav.enter_dir(&File::new_from_path("/home/user/src/a.txt", false), None) {
        EnterStep::Open(name) => assert_eq!(name, Some("a.txt".to_string())),
        other => panic!("unexpected {:?}", other),
    }
    let (left_from, left) = nav.go_back().unwrap();
    assert_eq!(left_from.path, "/home/user/src");
    assert_eq!(left.unwrap().path, "/home");
    assert_eq!(nav.cwd.path, "/home/user");
    assert_eq!(nav.bookmark_base(), "/home/user/src");
    let left = nav.goto_prev_cwd().unwrap();
    assert_eq!(nav.cwd.path, "/home/user/src");
    assert_eq!(left.unwrap().path, "/home/user");
    let mut root = Navigation::new(File::new_from_path("/", true));
    assert!(root.go_back().is_none());
}

#[test]
fn turbo_cd_steps() {
    let dir = File::new_from_path("/d", true);
    let sub = File::new_from_path("/d/sub", true);
    let mut t = TurboCd::new(dir, None, sub.clone());
    assert!(matches!(t.step(&MiniBufferEvent::NewInput("..".to_string()), None, &sub), TurboStep::Wait));
    match t.step(&MiniBufferEvent::NewInput("su".to_string()), None, &sub) {
        TurboStep::SetFilter(f) => assert_eq!(f, "su"),
        other => panic!("unexpected {:?}", other),
    }
    match t.step(&MiniBufferEvent::NewInput("sub/".to_string()), Some("su".to_string()), &sub) {
        TurboStep::Enter(_, _, d) => assert_eq!(d.path, "/d/sub"),
        other => panic!("unexpected {:?}", other),
    }
    assert!(t.filter.is_none());
    assert!(matches!(t.step(&MiniBufferEvent::NewInput("../".to_string()), None, &sub), TurboStep::GoBack(None, None)));
    match t.step(&MiniBufferEvent::Cancelled, None, &sub) {
        TurboStep::Cancel(d, f, s) => {
            assert_eq!(d.path, "/d");
            assert_eq!(f, None);
            assert_eq!(s.path, "/d/sub");
        },
        other => panic!("unexpected {:?}", other),
    }
    assert!(matches!(t.step(&MiniBufferEvent::Empty, None, &sub), TurboStep::Finish(None)));
}

#[test]
fn external_chooser_output() {
    let ps = chosen_paths("/home", "a.txt\n/etc/hosts\n");
    assert_eq!(ps, vec!["/home/a.txt".to_string(), "/etc/hosts".to_string()]);
    assert_eq!(chosen_dir("/home", "src\n\n"), "/home/src");
    match select_plan("/home", "one\n") {
        SelectPlan::One(p) => assert_eq!(p, "/home/one"),
        other => panic!("unexpected {:?}", other),
    }
    assert!(matches!(select_plan("/home", ""), SelectPlan::Many(v) if v.is_empty()));
    let mut files = Files::new(File::new_from_path("/home", true), vec![entry("x", false)]);
    files.recalculate_len();
    assert_eq!(files.toggle_file_with_path("/d/x"), Some(0));
    assert!(files.files[0].selected);
    assert_eq!(files.toggle_file_with_path("/d/y"), None);
}

#[test]
fn browser_header_and_footer() {
    let f = entry("file.txt", false);
    assert_eq!(header_line("~/", "C", &f, 80), "~/Cfile.txt");
    assert_eq!(header_line("/", "", &f, 80), "/file.txt");
    assert_eq!(header_line("/usr", "", &f, 80), "/usr/file.txt");
    assert_eq!(counter(8, 120), "  9/120");
    assert_eq!(counter(0, 5), "1/5");
    let fs = Filesystem {
        fs_mounted_from: "/dev/sda1".to_string(),
        fs_mounted_on: "/".to_string(),
        total: 1024,
        avail: 512,
    };
    let c = Coordinates::new_at(80, 20, 1, 2);
    let space = space_line(&fs, "512 B", "1.0 KB");
    assert_eq!(space, "sda1: 512 B / 1.0 KB");
    let line = footer_line(&c, &f, "me", "us", "today", &None, 0, 5, &space).to_string();
    assert!(line.starts_with("NOPERMS me:us "));
    assert!(line.ends_with("sda1: 512 B / 1.0 KB\x1b[38;5;7m\x1b[48;5;4m | 1/5"));
    assert_eq!(try_footer_line(&c, &f, "me", "us", "today", &None, 0, 5, &space), Some(line));
    let written = space_of(&fs);
    assert_eq!(
        written,
        format!(
            "sda1: {} / {}",
            systemstat::ByteSize::b(512).to_string_as(false),
            systemstat::ByteSize::b(1024).to_string_as(false)
        )
    );
}
