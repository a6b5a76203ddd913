use hunter::files::File;
use hunter::preview::{preview_change, preview_kind, PreviewKind};

fn file(path: &str, is_dir: bool) -> File {
    let name = path.rsplit('/').next().unwrap();
    File::new(name, path, is_dir)
}

fn mime(m: &str) -> Option<String> {
    Some(m.to_string())
}

#[test]
fn directories_preview_as_lists() {
    let d = file("/home/u/src", true);
    assert_eq!(preview_kind(&d, true, &mime("video/mp4")), PreviewKind::Directory);
}

#[test]
fn texts_preview_as_lines() {
    let f = file("/home/u/notes.txt", false);
    assert_eq!(preview_kind(&f, true, &mime("image/png")), PreviewKind::Text);
}

#[test]
fn media_types_choose_the_player() {
    let f = file("/home/u/a.bin", false);
    assert_eq!(preview_kind(&f, false, &mime("video/mp4")), PreviewKind::Video);
    assert_eq!(preview_kind(&f, false, &mime("image/gif")), PreviewKind::Video);
    assert_eq!(preview_kind(&f, false, &mime("image/png")), PreviewKind::Image);
    assert_eq!(preview_kind(&f, false, &mime("audio/ogg")), PreviewKind::Audio);
    assert_eq!(preview_kind(&f, false, &mime("application/pdf")), PreviewKind::External);
}

#[test]
fn unknown_media_type_goes_to_the_external_previewer() {
    let f = file("/home/u/a.bin", false);
    assert_eq!(preview_kind(&f, false, &None), PreviewKind::External);
    assert_eq!(preview_kind(&f, false, &mime("not a mime")), PreviewKind::External);
}

#[test]
fn choosing_the_current_file_again_does_nothing() {
    let a = file("/home/u/a", false);
    assert_eq!(preview_change(&Some(a.clone()), false, &a), None);
    assert_eq!(preview_change(&Some(a.clone()), true, &a), Some(true));
}

#[test]
fn a_new_preview_slides_only_across_directories() {
    let a = file("/home/u/a", false);
    let b = file("/home/u/b", false);
    let c = file("/etc/c", false);
    assert_eq!(preview_change(&None, false, &a), Some(true));
    assert_eq!(preview_change(&Some(a.clone()), false, &b), Some(true));
    assert_eq!(preview_change(&Some(a.clone()), false, &c), Some(false));
}
