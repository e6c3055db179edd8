use keyboard_configurator::board::BoardCommand;
use keyboard_configurator::keyboard::{ImportError, Keyboard, Page};
use keyboard_configurator::keymap::KeyMap;
use keyboard_configurator::layout::{Key, Layout, LayoutError, LayoutMeta, ScancodeTable};

fn table() -> ScancodeTable {
    ScancodeTable::new(vec![
        ("NONE".to_string(), 0x00),
        ("KC_A".to_string(), 0x04),
        ("KC_B".to_string(), 0x05),
        ("KC_C".to_string(), 0x06),
    ])
    .unwrap()
}

fn key(name: &str, row: u8, col: u8) -> Key {
    Key {
        logical_name: name.to_string(),
        electrical: (row, col),
        scancodes: Vec::new(),
        leds: Vec::new(),
    }
}

fn keymap(board: &str, entries: &[(&str, &[&str])]) -> KeyMap {
    KeyMap {
        board: board.to_string(),
        map: entries
            .iter()
            .map(|(k, v)| (k.to_string(), v.iter().map(|s| s.to_string()).collect()))
            .collect(),
    }
}

fn meta(num_layers: u8) -> LayoutMeta {
    LayoutMeta { has_mode: true, has_per_layer: true, num_layers }
}

fn two_key_board() -> Keyboard {
    let default = keymap("test/board", &[("A", &["KC_C", "KC_C"]), ("B", &["KC_A", "KC_B"])]);
    let layout = Layout::new(meta(2), vec![key("A", 1, 2), key("B", 3, 4)], table(), default).unwrap();
    let reads = vec![vec![Some(0x04), Some(0x04)], vec![Some(0x05), Some(0x06)]];
    Keyboard::new_layout("test/board", layout, &reads)
}

fn names(kb: &Keyboard) -> Vec<Vec<String>> {
    kb.keys().iter().map(|k| k.scancodes.iter().map(|s| s.1.clone()).collect()).collect()
}

#[test]
fn new_layout_resolves_read_codes() {
    let kb = two_key_board();
    assert_eq!(kb.keys()[0].scancodes, vec![(0x04, "KC_A".to_string()), (0x04, "KC_A".to_string())]);
    assert_eq!(kb.keys()[1].scancodes, vec![(0x05, "KC_B".to_string()), (0x06, "KC_C".to_string())]);
    assert_eq!(kb.board_name(), "test/board");
    assert_eq!(kb.layer(), Some(0));
    assert_eq!(kb.selected(), None);
}

#[test]
fn new_layout_failed_and_unknown_reads() {
    let layout = Layout::new(meta(2), vec![key("A", 0, 0)], table(), keymap("b", &[])).unwrap();
    // A failed read counts as code 0; a code the table lacks gets the empty name.
    let reads = vec![vec![None, Some(0x77)]];
    let kb = Keyboard::new_layout("b", layout, &reads);
    assert_eq!(kb.keys()[0].scancodes, vec![(0x00, "NONE".to_string()), (0x77, String::new())]);

    let layout = Layout::new(meta(2), vec![key("A", 0, 0)], table(), keymap("b", &[])).unwrap();
    let kb = Keyboard::new_layout("b", layout, &Vec::new());
    assert_eq!(kb.keys()[0].scancodes, vec![(0x00, "NONE".to_string()), (0x00, "NONE".to_string())]);
}

#[test]
fn set_key_writes_model_and_board() {
    let mut kb = two_key_board();
    let w = kb.keymap_set(0, 0, "KC_B");
    assert_eq!(w, Some(BoardCommand::WriteScancode { layer: 0, row: 1, col: 2, code: 0x05 }));
    assert_eq!(kb.keys()[0].scancodes[0], (0x05, "KC_B".to_string()));
    assert_eq!(kb.keys()[0].scancodes[1], (0x04, "KC_A".to_string()));
}

#[test]
fn set_key_unknown_name_changes_nothing() {
    let mut kb = two_key_board();
    let before = names(&kb);
    assert_eq!(kb.keymap_set(1, 1, "KC_NOPE"), None);
    assert_eq!(names(&kb), before);
    assert_eq!(kb.keys()[1].scancodes[1], (0x06, "KC_C".to_string()));
}

#[test]
fn has_scancode_checks_table() {
    let kb = two_key_board();
    assert!(kb.has_scancode("KC_A"));
    assert!(!kb.has_scancode("KC_Z"));
    assert!(!kb.has_scancode(""));
}

#[test]
fn export_lists_names_by_logical_name() {
    let kb = two_key_board();
    let km = kb.export_keymap();
    assert_eq!(km.board, "test/board");
    assert_eq!(
        km.map,
        vec![
            ("A".to_string(), vec!["KC_A".to_string(), "KC_A".to_string()]),
            ("B".to_string(), vec!["KC_B".to_string(), "KC_C".to_string()]),
        ]
    );
}

#[test]
fn export_import_round_trip() {
    let mut kb = two_key_board();
    let km = kb.export_keymap();
    kb.keymap_set(0, 0, "KC_C");
    kb.keymap_set(1, 1, "KC_A");
    let writes = kb.import_keymap(&km).unwrap();
    assert_eq!(writes.len(), 4);
    assert_eq!(names(&kb), vec![vec!["KC_A", "KC_A"], vec!["KC_B", "KC_C"]]);
    assert_eq!(kb.keys()[0].scancodes[0].0, 0x04);
}

#[test]
fn import_board_mismatch_changes_nothing() {
    let mut kb = two_key_board();
    let before = names(&kb);
    let km = keymap("other/board", &[("A", &["KC_C", "KC_C"])]);
    assert_eq!(kb.import_keymap(&km).err(), Some(ImportError::BoardMismatch));
    assert_eq!(names(&kb), before);
}

#[test]
fn import_skips_unknown_keys_names_and_layers() {
    let mut kb = two_key_board();
    let km = keymap(
        "test/board",
        &[("Z", &["KC_C"]), ("B", &["KC_BAD", "KC_A", "KC_C"]), ("A", &["KC_C"])],
    );
    let writes = kb.import_keymap(&km).unwrap();
    assert_eq!(
        writes,
        vec![
            BoardCommand::WriteScancode { layer: 1, row: 3, col: 4, code: 0x04 },
            BoardCommand::WriteScancode { layer: 0, row: 1, col: 2, code: 0x06 },
        ]
    );
    assert_eq!(names(&kb), vec![vec!["KC_C", "KC_A"], vec!["KC_B", "KC_A"]]);
}

#[test]
fn reset_applies_default_keymap() {
    let mut kb = two_key_board();
    let writes = kb.reset().unwrap();
    assert_eq!(writes.len(), 4);
    assert_eq!(writes[0], BoardCommand::WriteScancode { layer: 0, row: 1, col: 2, code: 0x06 });
    assert_eq!(names(&kb), vec![vec!["KC_C", "KC_C"], vec!["KC_A", "KC_B"]]);
}

#[test]
fn selection_follows_key_and_layer() {
    let mut kb = two_key_board();
    let v = kb.set_selected(Some(1));
    assert_eq!(v.scancode_name, Some("KC_B".to_string()));
    assert!(v.editable);

    let v = kb.set_page(Page::Layer2).unwrap();
    assert_eq!(v.scancode_name, Some("KC_C".to_string()));
    assert_eq!(kb.layer(), Some(1));
    // The same layer again publishes nothing.
    assert!(kb.set_page(Page::Layer2).is_none());

    let v = kb.set_page(Page::Keycaps).unwrap();
    assert_eq!(v.scancode_name, None);
    assert!(!v.editable);
    // Another page without a layer publishes nothing either.
    assert!(kb.set_page(Page::Logical).is_none());

    let v = kb.set_selected(None);
    assert_eq!(v.scancode_name, None);
    assert!(!v.editable);
}

#[test]
fn editable_needs_key_and_layer() {
    let mut kb = two_key_board();
    assert!(!kb.editable());
    kb.set_selected(Some(0));
    assert!(kb.editable());
    kb.set_page(Page::Electrical);
    assert!(!kb.editable());
    assert_eq!(kb.layer(), None);
    assert_eq!(kb.selected(), Some(0));
}

#[test]
fn selection_on_layer_past_board_count() {
    let layout = Layout::new(meta(1), vec![key("A", 0, 0)], table(), keymap("b", &[])).unwrap();
    let mut kb = Keyboard::new_layout("b", layout, &vec![vec![Some(0x04)]]);
    kb.set_selected(Some(0));
    let v = kb.set_page(Page::Layer2).unwrap();
    assert_eq!(v.scancode_name, None);
    assert!(v.editable);
}

#[test]
fn scancode_table_lookups() {
    let t = table();
    assert_eq!(t.lookup_code("KC_B"), Some(0x05));
    assert_eq!(t.lookup_code("KC_Q"), None);
    assert_eq!(t.lookup_name(0x06), "KC_C");
    assert_eq!(t.lookup_name(0x99), "");
    assert!(t.contains_name("NONE"));
}

#[test]
fn scancode_table_rejects_repeats() {
    assert!(ScancodeTable::new(vec![("A".to_string(), 1), ("A".to_string(), 2)]).is_none());
    assert!(ScancodeTable::new(vec![("A".to_string(), 1), ("B".to_string(), 1)]).is_none());
    assert!(ScancodeTable::new(Vec::new()).is_some());
}

#[test]
fn layout_rejects_bad_definitions() {
    let r = Layout::new(meta(0), vec![], table(), keymap("b", &[]));
    assert_eq!(r.err(), Some(LayoutError::BadLayerCount));
    let r = Layout::new(meta(16), vec![], table(), keymap("b", &[]));
    assert_eq!(r.err(), Some(LayoutError::BadLayerCount));
    let r = Layout::new(meta(2), vec![key("A", 0, 0), key("A", 0, 1)], table(), keymap("b", &[]));
    assert_eq!(r.err(), Some(LayoutError::DuplicateKeyName));
    assert!(Layout::new(meta(15), vec![key("A", 0, 0)], table(), keymap("b", &[])).is_ok());
}

#[test]
fn keymap_duplicate_copies_entries() {
    let km = keymap("b", &[("A", &["KC_A", "KC_B"])]);
    let copy = km.duplicate();
    assert_eq!(copy.board, "b");
    assert_eq!(copy.map, km.map);
}
