use hunter::coordinates::Coordinates;
use hunter::files::{File, Meta};
use hunter::hbox::{layout_fits, HBox};
use hunter::preview::mime_by_ext;
use hunter::quick_actions::{action_dirs, common_mime, shared_mime};

fn file(path: &str) -> File {
    let name = path.rsplit('/').next().unwrap_or(path);
    File::new(name, path, false)
}

fn some(s: &str) -> Option<String> {
    Some(s.to_string())
}

#[test]
fn mime_from_the_extension() {
    assert_eq!(mime_by_ext(&file("/d/a.png")), some("image/png"));
    assert_eq!(mime_by_ext(&file("/d/b.PNG")), some("image/png"));
    assert_eq!(mime_by_ext(&file("/d/notes.txt")), some("text/plain"));
    assert_eq!(mime_by_ext(&file("/d/README")), None);
    assert_eq!(mime_by_ext(&file("/d/.hidden")), None);
    assert_eq!(mime_by_ext(&file("/d/x.nosuchextension")), None);
}

#[test]
fn shared_mime_of_texts() {
    assert_eq!(shared_mime(&vec![]), None);
    assert_eq!(shared_mime(&vec![some("image/png")]), some("image/png"));
    assert_eq!(shared_mime(&vec![some("image/png"), some("image/png")]), some("image/png"));
    assert_eq!(shared_mime(&vec![some("image/png"), some("image/jpeg")]), some("image/"));
    assert_eq!(shared_mime(&vec![some("image/png"), some("text/plain")]), None);
    assert_eq!(shared_mime(&vec![some("image/png"), None]), None);
    assert_eq!(shared_mime(&vec![None, None]), None);
    assert_eq!(shared_mime(&vec![some("image/svg+xml"), some("image/svg")]), some("image/svg"));
    assert_eq!(
        shared_mime(&vec![some("image/png"), some("image/jpeg"), some("image/gif")]),
        some("image/")
    );
}

#[test]
fn common_mime_of_files() {
    assert_eq!(common_mime(&vec![]), None);
    assert_eq!(common_mime(&vec![file("/d/a.png"), file("/d/b.png")]), some("image/png"));
    assert_eq!(common_mime(&vec![file("/d/a.png"), file("/d/b.jpg")]), some("image/"));
    assert_eq!(common_mime(&vec![file("/d/a.png"), file("/d/b.txt")]), None);
    assert_eq!(common_mime(&vec![file("/d/a.png"), file("/d/README")]), None);
}

#[test]
fn action_folders_of_a_mime() {
    assert_eq!(action_dirs("image/png"), Some(("image".to_string(), "image/png".to_string())));
    assert_eq!(action_dirs("image/"), Some(("image".to_string(), "image/".to_string())));
    assert_eq!(action_dirs("*/"), Some(("*".to_string(), "*/".to_string())));
    assert_eq!(action_dirs("nothing"), None);
}

#[test]
fn owner_and_group_labels() {
    let mut f = file("/d/a.txt");
    assert_eq!(f.pretty_user(&some("me"), &some("me")), None);
    f.meta = Some(Meta { size: 1, mtime: 0, mode: 0o644, uid: 1000, gid: 1000 });
    assert_eq!(f.pretty_user(&some("me"), &some("me")), some("\x1b[38;5;2mme"));
    assert_eq!(f.pretty_user(&some("root"), &some("me")), some("\x1b[38;5;1mroot"));
    assert_eq!(f.pretty_user(&None, &some("me")), None);
    assert_eq!(f.pretty_user(&some("me"), &None), None);
    assert_eq!(f.pretty_group(&some("staff"), &some("staff")), some("\x1b[38;5;2mstaff"));
    assert_eq!(f.pretty_group(&some("wheel"), &some("staff")), some("\x1b[38;5;1mwheel"));
}

#[test]
fn checked_column_places() {
    assert!(layout_fits(&vec![20, 30, 49], 100, 20, (1, 2)));
    assert!(!layout_fits(&vec![20, 30, 49], 4000, 20, (1, 2)));
    assert!(!layout_fits(&vec![65535], 2, 20, (0, 0)));
    let mut h: HBox<u32> = HBox::new(Coordinates::new_at(100, 20, 1, 2));
    h.push_widget(1);
    h.push_widget(2);
    h.push_widget(3);
    h.set_ratios(vec![20, 30, 49]);
    let places = h.try_calculate_coordinates().unwrap().unwrap();
    assert_eq!(places.len(), 3);
    assert_eq!(places[0], Coordinates::new_at(20, 20, 1, 2));
    assert_eq!(places[1], Coordinates::new_at(30, 20, 22, 2));
    assert_eq!(places[2], Coordinates::new_at(49, 20, 53, 2));
    let mut wide: HBox<u32> = HBox::new(Coordinates::new_at(4000, 20, 1, 2));
    wide.push_widget(1);
    wide.set_ratios(vec![20]);
    assert!(wide.try_calculate_coordinates().is_none());
    let empty: HBox<u32> = HBox::new(Coordinates::new_at(100, 20, 1, 2));
    assert!(matches!(empty.try_calculate_coordinates(), Some(Err(_))));
}
