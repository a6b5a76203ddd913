use hunter::actions::{FileBrowserAction, Movement, TabAction};
use hunter::bindings_file::KeyBinds;
use hunter::keybind::{parse_any_key, AnyKey, Bindings, CharOrNum, Key, KeyBindError};
use hunter::actions::{key_targets, FileListAction};

#[test]
fn test_keyparse() {
    let keys = ["C-a", "A-_", "Delete", "a", "F9", "C-_"];

    for key in keys.iter() {
        let parsed = key.parse::<AnyKey>();

        println!("{:?}", parsed);
        assert!(parsed.is_ok());
    }
}

#[test]
fn key_names_parse_to_keys() {
    assert_eq!(parse_any_key("C-a").unwrap(), AnyKey::Key(Key::Ctrl('a')));
    assert_eq!(parse_any_key("A-_").unwrap(), AnyKey::AnyAlt);
    assert_eq!(parse_any_key("M-x").unwrap(), AnyKey::Key(Key::Alt('x')));
    assert_eq!(parse_any_key("Delete").unwrap(), AnyKey::Key(Key::Delete));
    assert_eq!(parse_any_key("a").unwrap(), AnyKey::Key(Key::Char('a')));
    assert_eq!(parse_any_key("F9").unwrap(), AnyKey::Key(Key::F(9)));
    assert_eq!(parse_any_key("C-_").unwrap(), AnyKey::AnyCtrl);
    assert_eq!(parse_any_key("F_").unwrap(), AnyKey::AnyF);
    assert_eq!(parse_any_key("_").unwrap(), AnyKey::AnyChar);
}

#[test]
fn bad_key_name_is_an_error() {
    match parse_any_key("NoSuchKey") {
        Err(KeyBindError::ParseKeyError(s)) => assert_eq!(s, "NoSuchKey"),
        other => panic!("unexpected {:?}", other),
    }
}

#[test]
fn char_or_num_defaults() {
    assert_eq!(CharOrNum::Char('x').char_or('a'), 'x');
    assert_eq!(CharOrNum::Num(3).char_or('a'), 'a');
    assert_eq!(CharOrNum::Num(3).num_or(7), 3);
    assert_eq!(CharOrNum::Char('x').num_or(7), 7);
}

#[test]
fn bindings_get_after_insert() {
    let mut b: Bindings<TabAction> = Bindings::new();
    assert!(b.get(AnyKey::Key(Key::Char('t'))).is_none());
    assert_eq!(b.insert(AnyKey::Key(Key::Char('t')), TabAction::NewTab), None);
    assert_eq!(b.get(AnyKey::Key(Key::Char('t'))), Some(&TabAction::NewTab));
    assert_eq!(
        b.insert(AnyKey::Key(Key::Char('t')), TabAction::CloseTab),
        Some(TabAction::NewTab)
    );
    assert_eq!(b.get(AnyKey::Key(Key::Char('t'))), Some(&TabAction::CloseTab));
}

#[test]
fn default_movement_bindings() {
    let b: Bindings<Movement> = Bindings::default();
    assert_eq!(b.find_action(Key::Char('k')), Some(Movement::Up(1)));
    assert_eq!(b.find_action(Key::Char('J')), Some(Movement::Down(10)));
    assert_eq!(b.find_action(Key::End), Some(Movement::Bottom));
}

#[test]
fn any_key_binding_takes_the_key_parameter() {
    let b: Bindings<TabAction> = Bindings::default();
    assert_eq!(b.find_action(Key::F(3)), Some(TabAction::GotoTab(2)));
}

#[test]
fn bindings_file_overrides_a_section() {
    let text = "[movement]\nUp(5)=u\nDown=d\n";
    let kb = KeyBinds::load(text).unwrap();
    assert_eq!(kb.movement.find_action(Key::Char('u')), Some(Movement::Up(5)));
    assert_eq!(kb.movement.find_action(Key::Char('d')), Some(Movement::Down(1)));
    // a section that is not in the file keeps its defaults
    let defaults: Bindings<FileBrowserAction> = Bindings::default();
    assert_eq!(
        kb.filebrowser.find_action(Key::Char('q')),
        defaults.find_action(Key::Char('q'))
    );
}

#[test]
fn movement_comes_before_the_widget_action() {
    let moves: Bindings<Movement> = Bindings::default();
    let acts: Bindings<FileListAction> = Bindings::default();
    assert_eq!(key_targets(&moves, &acts, Key::Char('h')), (Some(Movement::Left), Some(FileListAction::ToggleHidden)));
    assert_eq!(key_targets(&moves, &acts, Key::Char('t')), (None, Some(FileListAction::ToggleTag)));
    assert_eq!(key_targets(&moves, &acts, Key::Char('x')), (None, None));
}
