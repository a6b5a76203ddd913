use hunter::files::{File, Files, FsEvent, Kind, Meta, RefreshPackage, SortBy};

fn meta(size: u64, mtime: i64, mode: u32) -> Meta {
    Meta { size, mtime, mode, uid: 1000, gid: 1000 }
}

fn file(name: &str, is_dir: bool) -> File {
    File::new(name, &format!("/d/{}", name), is_dir)
}

fn names(files: &Files) -> Vec<String> {
    files.files.iter().map(|f| f.name.clone()).collect()
}

#[test]
fn new_file_is_hidden_by_its_name() {
    assert!(file(".bashrc", false).hidden);
    assert!(!file("bashrc", false).hidden);
    assert_eq!(file("src", true).kind, Kind::Directory);
    let p = File::new_placeholder("/home/u/.config");
    assert_eq!(p.name, "<empty>");
    assert_eq!(p.kind, Kind::Placeholder);
    assert!(p.hidden);
    assert_eq!(File::new_from_path("/", true).name, "/");
}

#[test]
fn sizes_in_units() {
    let mut f = file("a", false);
    assert_eq!(f.calculate_size(), None);
    f.meta = Some(meta(1000, 0, 0o644));
    assert_eq!(f.calculate_size(), Some((1000, "")));
    f.meta = Some(meta(1025, 0, 0o644));
    assert_eq!(f.calculate_size(), Some((1, " KB")));
    f.meta = Some(meta(5 * 1024 * 1024 * 1024, 0, 0o644));
    assert_eq!(f.calculate_size(), Some((5, " GB")));
    f.dirsize = Some(12);
    assert_eq!(f.calculate_size(), Some((12, "")));
}

#[test]
fn permissions_as_letters() {
    let mut f = file("a", false);
    f.meta = Some(meta(0, 0, 0o100644));
    let r = "\x1b[38;5;2mr";
    let w = "\x1b[38;5;3mw";
    let x = "\x1b[38;5;1mx";
    let n = "\x1b[38;5;10m-";
    let expected = format!("{}{}{}{}{}{}{}{}{}", r, w, n, r, n, n, r, n, n);
    assert_eq!(f.pretty_print_permissions().unwrap(), expected);
    f.meta = Some(meta(0, 0, 0o40755));
    let expected = format!("{}{}{}{}{}{}{}{}{}", r, w, x, r, n, x, r, n, x);
    assert_eq!(f.pretty_print_permissions().unwrap(), expected);
}

#[test]
fn readability_by_mode() {
    let mut f = file("a", false);
    assert_eq!(f.is_readable("me", "us", "me", "us"), None);
    f.meta = Some(meta(0, 0, 0o400));
    assert_eq!(f.is_readable("me", "us", "me", "us"), Some(true));
    assert_eq!(f.is_readable("you", "us", "me", "us"), Some(false));
    f.meta = Some(meta(0, 0, 0o044));
    assert_eq!(f.is_readable("you", "them", "me", "us"), Some(true));
}

#[test]
fn tags_and_selection() {
    let mut f = file("a", false);
    f.set_tag_status(&["/d/b".to_string(), "/d/a".to_string()]);
    assert_eq!(f.tag, Some(true));
    f.set_tag_status(&[]);
    assert_eq!(f.tag, Some(false));
    f.toggle_selection();
    assert!(f.is_selected());
}

#[test]
fn hidden_and_filtered_files() {
    let mut files = Files::new(
        File::new_from_path("/d", true),
        vec![file("a", false), file(".b", false), file("abc", false), file("c", true)],
    );
    assert_eq!(files.visible_positions(), vec![0, 1, 2, 3]);
    files.toggle_hidden();
    assert!(!files.show_hidden);
    assert_eq!(files.visible_positions(), vec![0, 2, 3]);
    assert_eq!(files.len(), 3);
    files.set_filter(Some("a".to_string()));
    assert_eq!(files.visible_positions(), vec![0, 2]);
    // the count is only redone where a placeholder is taken out
    assert_eq!(files.len(), 3);
    files.recalculate_len();
    assert_eq!(files.len(), 2);
    files.set_filter(Some("zzz".to_string()));
    files.recalculate_len();
    assert_eq!(files.len(), 0);
    files.set_filter(Some("zzz".to_string()));
    // nothing left: a placeholder takes the place of the files
    assert_eq!(files.len(), 1);
    assert_eq!(files.files.last().unwrap().kind, Kind::Placeholder);
    assert_eq!(files.get_filter(), Some("zzz".to_string()));
}

#[test]
fn sorting_orders() {
    let mut a = file("a10", false);
    a.meta = Some(meta(5, 100, 0));
    let mut b = file("a9", false);
    b.meta = Some(meta(50, 50, 0));
    let mut d = file("dir", true);
    d.meta = Some(meta(1, 1, 0));
    let mut files = Files::new(File::new_from_path("/d", true), vec![a, b, d]);
    files.sort();
    assert_eq!(names(&files), vec!["dir", "a9", "a10"]);
    files.cycle_sort();
    assert_eq!(files.sort, SortBy::Size);
    assert!(!files.needs_meta_for_sort() || files.meta_upto.is_none());
    files.sort();
    assert_eq!(names(&files), vec!["dir", "a9", "a10"]);
    files.dirs_first = false;
    files.cycle_sort();
    files.sort();
    assert_eq!(names(&files), vec!["a10", "a9", "dir"]);
    assert_eq!(files.sort.to_string(), "mtime");
    files.cycle_sort();
    assert_eq!(files.sort, SortBy::Name);
}

#[test]
fn refresh_applies_events() {
    let mut a = file("a", false);
    a.meta = Some(meta(1, 1, 0));
    let b = file("b", false);
    let c = file("c", false);
    let files = Files::new(File::new_from_path("/d", true), vec![a, b, c]);
    let old_buffer = vec!["A".to_string(), "B".to_string(), "C".to_string()];
    let mut changed_a = file("a", false);
    changed_a.meta = Some(meta(2, 2, 0));
    let events = vec![
        FsEvent::Create(file("e", false)),
        FsEvent::Change(changed_a),
        FsEvent::Remove(file("b", false)),
        FsEvent::Rename(file("c", false), file("d", false)),
    ];
    let r = RefreshPackage::new(files, old_buffer, events, |f: &File| format!("<{}>", f.name));
    let new_files = r.new_files.unwrap();
    let names: Vec<String> = new_files.iter().map(|f| f.name.clone()).collect();
    assert_eq!(names, vec!["a", "d", "e"]);
    assert_eq!(new_files[0].meta, Some(meta(2, 2, 0)));
    assert_eq!(new_files[1].path, "/d/d");
    assert_eq!(r.new_len, 3);
    assert_eq!(r.new_buffer.unwrap(), vec!["<a>", "<d>", "<e>"]);
}

#[test]
fn refresh_keeps_lines_of_unchanged_files() {
    let files = Files::new(File::new_from_path("/d", true), vec![file("a", false), file("b", false)]);
    let old_buffer = vec!["A".to_string(), "B".to_string()];
    let events = vec![FsEvent::Create(file("c", false))];
    let r = RefreshPackage::new(files, old_buffer, events, |f: &File| format!("<{}>", f.name));
    assert_eq!(r.new_buffer.unwrap(), vec!["A", "B", "<c>"]);
}

#[test]
fn refresh_of_emptied_directory_shows_placeholder() {
    let files = Files::new(File::new_from_path("/d", true), vec![file("a", false)]);
    let events = vec![FsEvent::Remove(file("a", false))];
    let r = RefreshPackage::new(files, vec!["A".to_string()], events, |f: &File| f.name.clone());
    let new_files = r.new_files.unwrap();
    assert_eq!(new_files.len(), 1);
    assert_eq!(new_files[0].kind, Kind::Placeholder);
    assert_eq!(r.new_len, 1);
    assert_eq!(r.new_buffer.unwrap(), vec!["<empty>"]);
}

#[test]
fn reversed_list_sorts_descending() {
    let dir = File::new("d", "/d", true);
    let mut files = Files::new(dir, vec![file("b", false), file("c", false), file("a", false)]);
    files.dirs_first = false;
    files.reverse_sort();
    files.sort();
    assert_eq!(names(&files), vec!["c", "b", "a"]);
    files.reverse_sort();
    files.sort();
    assert_eq!(names(&files), vec!["a", "b", "c"]);
}
