use hunter::actions::FileBrowserAction;
use hunter::browser::{cwd_file, key_route, previews, tab_names, try_tab_names, KeyRoute};
use hunter::coordinates::Coordinates;
use hunter::drawing::{
    clearlist, footer_drawlist, header_drawlist, redraw_empty_list, resized, slide_frames,
    status_line, try_status_line,
};
use hunter::files::{File, Files, FsEvent, Meta, SortBy};
use hunter::fscache::{ensure_not_empty, extract_tab_settings, removable_watches, SettingsCache};
use hunter::listview::ListView;
use hunter::term::{goto_xy, header_color, reset, status_bg};

fn entry(name: &str) -> File {
    File::new(name, &format!("/d/{}", name), false)
}

fn files_of(names: &[&str]) -> Files {
    let mut f = Files::new(File::new_from_path("/d", true), names.iter().map(|n| entry(n)).collect());
    f.recalculate_len();
    f
}

#[test]
fn settings_are_put_back() {
    let mut saved = files_of(&["a", "b", "c"]);
    saved.sort = SortBy::MTime;
    saved.reverse = true;
    saved.show_hidden = false;
    saved.filter = Some("b".to_string());
    saved.files[1].selected = true;
    let mut cache = SettingsCache::new();
    cache.save_settings(&saved, Some(entry("b")));
    let dir = File::new_from_path("/d", true);
    assert_eq!(cache.get_selection(&dir).unwrap().path, "/d/b");
    let mut fresh = files_of(&["a", "b", "c", "d"]);
    cache.apply_settings(&mut fresh);
    assert_eq!(fresh.sort, SortBy::MTime);
    assert!(fresh.reverse);
    assert!(!fresh.show_hidden);
    assert_eq!(fresh.filter, Some("b".to_string()));
    assert!(fresh.files[1].selected);
    assert!(!fresh.files[0].selected);
    let mut elsewhere = Files::new(File::new_from_path("/e", true), vec![]);
    cache.apply_settings(&mut elsewhere);
    assert_eq!(elsewhere.sort, SortBy::Name);
}

#[test]
fn chosen_file_is_remembered() {
    let mut cache = SettingsCache::new();
    let dir = File::new_from_path("/x", true);
    assert!(cache.get_selection(&dir).is_none());
    cache.set_selection(&dir, entry("one"));
    assert_eq!(cache.get_selection(&dir).unwrap().path, "/d/one");
    cache.set_selection(&dir, entry("two"));
    assert_eq!(cache.get_selection(&dir).unwrap().path, "/d/two");
    assert_eq!(cache.entries.len(), 1);
    let ts = cache.get(&dir).unwrap();
    assert_eq!(ts.dir_settings.sort, SortBy::Name);
    assert!(ts.dir_settings.dirs_first);
}

#[test]
fn cached_files_and_placeholders() {
    let mut saved = files_of(&["a", "b"]);
    saved.files[0].selected = true;
    saved.dirs_first = false;
    let mut cache = SettingsCache::new();
    cache.save_settings(&saved, None);
    let again = cache.cached_files(files_of(&["a", "b"]));
    assert!(!again.dirs_first);
    assert!(again.files[0].selected);
    let empty = ensure_not_empty(Files::new(File::new_from_path("/d", true), vec![]));
    assert_eq!(empty.len, 1);
    assert_eq!(empty.files[0].name, "<empty>");
    let ts = extract_tab_settings(&saved, None);
    assert_eq!(ts.multi_selections.len(), 1);
    assert_eq!(ts.multi_selections[0].path, "/d/a");
}

#[test]
fn watches_to_drop() {
    let watched = vec![entry("a"), entry("b"), entry("c")];
    let open = vec![entry("b")];
    let gone: Vec<String> = removable_watches(&watched, &open).into_iter().map(|f| f.path).collect();
    assert_eq!(gone, vec!["/d/a".to_string(), "/d/c".to_string()]);
}

#[test]
fn events_name_their_file() {
    let e = FsEvent::Rename(entry("old"), entry("new"));
    assert_eq!(e.file().path, "/d/new");
    assert!(e.for_file(&entry("new")));
    assert!(!e.for_file(&entry("old")));
    assert!(FsEvent::Remove(entry("x")).for_file(&entry("x")));
}

#[test]
fn keys_go_where_the_focus_is() {
    assert_eq!(key_route(Some(FileBrowserAction::ZoomPreview), Some(2)), KeyRoute::ToggleColumns);
    assert_eq!(key_route(Some(FileBrowserAction::ZoomPreview), Some(1)), KeyRoute::ZoomPreview);
    assert_eq!(key_route(Some(FileBrowserAction::Quit), Some(2)), KeyRoute::Preview);
    assert_eq!(key_route(None, Some(1)), KeyRoute::Browser);
}

#[test]
fn empty_files_are_not_previewed() {
    let mut f = entry("x");
    assert!(!previews(0, &f));
    assert!(previews(3, &f));
    f.meta = Some(Meta { size: 0, mtime: 0, mode: 0o644, uid: 0, gid: 0 });
    assert!(!previews(3, &f));
    f.meta = Some(Meta { size: 10, mtime: 0, mode: 0o644, uid: 0, gid: 0 });
    assert!(previews(3, &f));
}

#[test]
fn quitting_with_the_directory() {
    let text = cwd_file(&File::new_from_path("/home", true), &entry("a"), &vec![entry("a"), entry("b")]);
    assert_eq!(text, "HUNTER_CWD=\"/home\"\nF=\"/d/a\"\nMF=(\"/d/a\" \"/d/b\" )\n");
}

#[test]
fn tab_names_are_last_components() {
    let cwds = vec![File::new_from_path("/home/user", true), File::new_from_path("/", true)];
    assert_eq!(tab_names(&cwds), vec![Some("user".to_string()), Some("/".to_string())]);
    assert_eq!(try_tab_names(&cwds), Some(vec![Some("user".to_string()), Some("/".to_string())]));
    let nothing = vec![File::new_from_path("", true)];
    assert_eq!(try_tab_names(&nothing), None);
}

#[test]
fn config_reload_shows_hidden_files() {
    let mut files = files_of(&["a", ".b"]);
    files.show_hidden = true;
    files.recalculate_len();
    let mut lv = ListView::new(Coordinates::new(20, 10), files);
    lv.selection = 1;
    lv.config_loaded(false);
    assert!(!lv.content.show_hidden);
    assert_eq!(lv.content.len, 1);
    assert_eq!(lv.selection, 0);
}

#[test]
fn widget_rows() {
    assert_eq!(
        header_drawlist(3, "H"),
        format!("{}{}   {}H", goto_xy(1, 1), header_color(), goto_xy(1, 1))
    );
    assert_eq!(
        footer_drawlist(2, 24, "F"),
        format!("{}{}  {}F", goto_xy(1, 24), header_color(), goto_xy(1, 24))
    );
    let c = Coordinates::new_at(2, 2, 3, 4);
    assert_eq!(
        clearlist(&c),
        format!("{}{}  {}{}  ", reset(), goto_xy(3, 4), reset(), goto_xy(3, 5))
    );
    assert_eq!(redraw_empty_list(&c, 0), "");
    let low = Coordinates::new_at(2, 1, 3, 1);
    assert_eq!(redraw_empty_list(&low, 0), format!("{}  {}  ", goto_xy(3, 1), goto_xy(3, 2)));
    assert_eq!(status_line(3, 24, "ok"), format!("{}{}ok ", goto_xy(1, 24), status_bg()));
    assert_eq!(try_status_line(3, 24, "ok"), Some(status_line(3, 24, "ok")));
    let frames = slide_frames(&Coordinates::new_at(10, 20, 1, 2));
    assert_eq!(frames.len(), 10);
    assert_eq!(frames[0], Coordinates::new_at(10, 11, 1, 11));
    assert_eq!(frames[9], Coordinates::new_at(10, 20, 1, 2));
    let r = resized(&Coordinates::new_at(80, 20, 1, 2), 99, 30);
    assert_eq!(r, Coordinates::new_at(100, 29, 1, 2));
}
