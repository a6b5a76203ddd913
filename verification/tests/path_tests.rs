use hunter::files::{File, Files};
use hunter::preview::preview_change;

#[test]
fn files_are_the_same_by_path_components() {
    let a = File::new("b", "/a/b", true);
    let b = File::new("b", "/a/b/", true);
    let c = File::new("c", "/a/c", true);
    assert!(a == b);
    assert!(a == File::new("b", "/a//b", true));
    assert!(a != c);
    assert_eq!(a.strip_prefix(&b), "./");
    assert_eq!(c.strip_prefix(&File::new("a", "/a/", true)), "c");
}

#[test]
fn preview_kept_for_the_same_path() {
    let shown = Some(File::new("b", "/a/b", false));
    assert_eq!(preview_change(&shown, false, &File::new("b", "/a/b/", false)), None);
    assert_eq!(preview_change(&shown, true, &File::new("b", "/a/b/", false)), Some(true));
    assert_eq!(preview_change(&shown, false, &File::new("c", "/a/c", false)), Some(true));
    assert_eq!(preview_change(&shown, false, &File::new("c", "/x/c", false)), Some(false));
    assert_eq!(preview_change(&None, false, &File::new("c", "/x/c", false)), Some(true));
}

#[test]
fn found_by_path_components() {
    let dir = File::new_from_path("/d", true);
    let mut files = Files::new(dir, vec![File::new("x", "/d/x", false), File::new("y", "/d/y", false)]);
    files.recalculate_len();
    assert_eq!(files.find_file_with_path("/d/y/"), Some(1));
    assert_eq!(files.find_file_with_path("/d//x"), Some(0));
    assert_eq!(files.find_file_with_path("/d/z"), None);
    assert_eq!(files.toggle_file_with_path("/d/x/"), Some(0));
    assert!(files.files[0].selected);
}
