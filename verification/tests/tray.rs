use shotlite::tray::{
    bgra, clear_mask_bit, display_name, hotkey_command, last_capture_path, menu_command, menu_entries,
    startup_toggled_message, EntryState, MenuEntry, TrayCommand, HOTKEY_FULL, HOTKEY_QUIT, HOTKEY_REGION, MENU_QUIT,
    MENU_STARTUP,
};

#[test]
fn hotkeys_map_to_commands() {
    assert_eq!(hotkey_command(HOTKEY_FULL), Some(TrayCommand::CaptureFull));
    assert_eq!(hotkey_command(HOTKEY_REGION), Some(TrayCommand::CaptureRegion));
    assert_eq!(hotkey_command(HOTKEY_QUIT), Some(TrayCommand::Quit));
    assert_eq!(hotkey_command(99), None);
}

#[test]
fn menu_ids_map_to_commands() {
    assert_eq!(menu_command(MENU_STARTUP), Some(TrayCommand::ToggleStartup));
    assert_eq!(menu_command(MENU_QUIT), Some(TrayCommand::Quit));
    assert_eq!(menu_command(0), None);
}

#[test]
fn menu_grays_last_capture_entries_until_a_capture() {
    let entries = menu_entries(false, true);

    assert_eq!(entries.len(), 10);
    match &entries[2] {
        MenuEntry::Item { label, state, .. } => {
            assert_eq!(label, "Open last screenshot");
            assert_eq!(*state, EntryState::Grayed);
        }
        MenuEntry::Separator => panic!("expected an item"),
    }
    match &entries[7] {
        MenuEntry::Item { state, .. } => assert_eq!(*state, EntryState::Checked),
        MenuEntry::Separator => panic!("expected an item"),
    }
    assert!(matches!(entries[6], MenuEntry::Separator));
}

#[test]
fn tray_notices() {
    assert_eq!(startup_toggled_message(true), "Start with Windows disabled");
    assert_eq!(startup_toggled_message(false), "Start with Windows enabled");
    assert_eq!(last_capture_path(None).unwrap_err(), "no screenshot has been captured yet");
    assert_eq!(last_capture_path(Some("a.png".to_string())).unwrap(), "a.png");
    assert_eq!(display_name(Some("a.png")), "a.png");
    assert_eq!(display_name(None), "screenshot saved");
}

#[test]
fn icon_pixels_and_mask_bits() {
    assert_eq!(bgra(0x12, 0x34, 0x56), 0x123456);

    let mut mask = vec![0xffu8; 128];
    clear_mask_bit(&mut mask, 9, 2);
    assert_eq!(mask[9], 0xbf);
    assert_eq!(mask.iter().filter(|byte| **byte != 0xff).count(), 1);
}
