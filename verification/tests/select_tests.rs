use hunter::browser::{select_many_step, select_step, short_path, ManyStep, SelectStep};
use hunter::files::{File, Kind};

#[test]
fn chosen_directory_is_gone_to() {
    match select_step("/home/u/src", true, true, false) {
        SelectStep::Goto(d) => {
            assert_eq!(d.path, "/home/u/src");
            assert_eq!(d.kind, Kind::Directory);
        }
        other => panic!("{:?}", other),
    }
}

#[test]
fn chosen_file_is_chosen_in_its_directory() {
    match select_step("/home/u/a.txt", true, false, true) {
        SelectStep::GotoAndChoose(d, f) => {
            assert_eq!(d.path, "/home/u");
            assert_eq!(f.path, "/home/u/a.txt");
            assert_eq!(f.name, "a.txt");
        }
        other => panic!("{:?}", other),
    }
}

#[test]
fn missing_choice_is_reported() {
    match select_step("/nope", false, false, false) {
        SelectStep::Status(m) => assert_eq!(m, "Can't access path: /nope!"),
        other => panic!("{:?}", other),
    }
    assert!(matches!(select_step("/dev/x", true, false, false), SelectStep::Nothing));
}

#[test]
fn several_choices_toggle_files() {
    let cwd = File::new("u", "/home/u", true);
    match select_many_step("/home/u/a", true, &cwd) {
        ManyStep::Toggle(None) => {}
        other => panic!("{:?}", other),
    }
    match select_many_step("/etc/b", true, &cwd) {
        ManyStep::Toggle(Some(d)) => assert_eq!(d.path, "/etc"),
        other => panic!("{:?}", other),
    }
    match select_many_step("/gone", false, &cwd) {
        ManyStep::Missing(m) => assert_eq!(m, "Can't find: /gone"),
        other => panic!("{:?}", other),
    }
}

#[test]
fn header_paths_are_shortened_below_home() {
    assert_eq!(short_path("/home/u/src", "/home/u"), "~/src");
    assert_eq!(short_path("/home/u", "/home/u"), "~/");
    assert_eq!(short_path("/etc", "/home/u"), "/etc");
}
