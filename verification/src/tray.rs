//! The tray app's decisions: which command a hotkey or menu entry stands for,
//! what the menu shows, the messages it reports, and its icon's bit mask.
use vstd::prelude::*;

use crate::capture::{capture_error_text, CaptureError};
use crate::config::{config_error_text, ConfigError};
use crate::interactive::{interactive_error_text, InteractiveError};

verus! {

/// Why tray mode stopped or a tray action failed.
#[derive(Debug)]
pub enum TrayError {
    Unsupported,
    Window,
    Capture(CaptureError),
    Config(ConfigError),
    Interactive(InteractiveError),
}

/// Runs tray mode. Outside Windows there is no tray.
pub fn run() -> (r: Result<(), TrayError>)
    ensures
        r matches Err(TrayError::Unsupported),
{
    Err(TrayError::Unsupported)
}

pub const HOTKEY_FULL: i32 = 1;
pub const HOTKEY_REGION: i32 = 2;
pub const HOTKEY_QUIT: i32 = 3;

pub const MENU_FULL: usize = 10;
pub const MENU_REGION: usize = 11;
pub const MENU_OPEN_LAST: usize = 12;
pub const MENU_COPY_LAST: usize = 13;
pub const MENU_OPEN_FOLDER: usize = 14;
pub const MENU_REVEAL_CONFIG: usize = 15;
pub const MENU_STARTUP: usize = 16;
pub const MENU_QUIT: usize = 17;

/// Something the tray app does on request.
#[derive(Clone, Copy, Debug, PartialEq, Eq, Structural)]
pub enum TrayCommand {
    CaptureFull,
    CaptureRegion,
    OpenLast,
    CopyLast,
    OpenFolder,
    RevealConfig,
    ToggleStartup,
    Quit,
}

/// The command a registered hotkey stands for.
pub fn hotkey_command(id: i32) -> (r: Option<TrayCommand>)
    ensures
        r == if id == HOTKEY_FULL {
            Some(TrayCommand::CaptureFull)
        } else if id == HOTKEY_REGION {
            Some(TrayCommand::CaptureRegion)
        } else if id == HOTKEY_QUIT {
            Some(TrayCommand::Quit)
        } else {
            None
        },
{
    if id == HOTKEY_FULL {
        Some(TrayCommand::CaptureFull)
    } else if id == HOTKEY_REGION {
        Some(TrayCommand::CaptureRegion)
    } else if id == HOTKEY_QUIT {
        Some(TrayCommand::Quit)
    } else {
        None
    }
}

/// The command a menu entry's identifier stands for.
pub open spec fn menu_command_spec(id: usize) -> Option<TrayCommand> {
    if id == MENU_FULL {
        Some(TrayCommand::CaptureFull)
    } else if id == MENU_REGION {
        Some(TrayCommand::CaptureRegion)
    } else if id == MENU_OPEN_LAST {
        Some(TrayCommand::OpenLast)
    } else if id == MENU_COPY_LAST {
        Some(TrayCommand::CopyLast)
    } else if id == MENU_OPEN_FOLDER {
        Some(TrayCommand::OpenFolder)
    } else if id == MENU_REVEAL_CONFIG {
        Some(TrayCommand::RevealConfig)
    } else if id == MENU_STARTUP {
        Some(TrayCommand::ToggleStartup)
    } else if id == MENU_QUIT {
        Some(TrayCommand::Quit)
    } else {
        None
    }
}

pub fn menu_command(id: usize) -> (r: Option<TrayCommand>)
    ensures
        r == menu_command_spec(id),
{
    if id == MENU_FULL {
        Some(TrayCommand::CaptureFull)
    } else if id == MENU_REGION {
        Some(TrayCommand::CaptureRegion)
    } else if id == MENU_OPEN_LAST {
        Some(TrayCommand::OpenLast)
    } else if id == MENU_COPY_LAST {
        Some(TrayCommand::CopyLast)
    } else if id == MENU_OPEN_FOLDER {
        Some(TrayCommand::OpenFolder)
    } else if id == MENU_REVEAL_CONFIG {
        Some(TrayCommand::RevealConfig)
    } else if id == MENU_STARTUP {
        Some(TrayCommand::ToggleStartup)
    } else if id == MENU_QUIT {
        Some(TrayCommand::Quit)
    } else {
        None
    }
}

/// How a menu entry is shown.
#[derive(Clone, Copy, Debug, PartialEq, Eq, Structural)]
pub enum EntryState {
    Enabled,
    Grayed,
    Checked,
    Unchecked,
}

/// One line of the tray menu.
#[derive(Debug)]
pub enum MenuEntry {
    Item { id: usize, label: String, state: EntryState },
    Separator,
}

pub open spec fn is_item(e: MenuEntry, id: usize, label: Seq<char>, state: EntryState) -> bool {
    e matches MenuEntry::Item { id: i, label: l, state: s } && i == id && l@ == label && s == state
}

fn item(id: usize, label: &str, state: EntryState) -> (e: MenuEntry)
    ensures
        is_item(e, id, label@, state),
{
    MenuEntry::Item { id, label: String::from_str(label), state }
}

/// The command an entry's label names: "Full screenshot" a full capture,
/// "Region screenshot" a region capture, and so on; other text names none.
pub open spec fn label_command(label: Seq<char>) -> Option<TrayCommand> {
    if label == "Full screenshot"@ {
        Some(TrayCommand::CaptureFull)
    } else if label == "Region screenshot"@ {
        Some(TrayCommand::CaptureRegion)
    } else if label == "Open last screenshot"@ {
        Some(TrayCommand::OpenLast)
    } else if label == "Copy last screenshot"@ {
        Some(TrayCommand::CopyLast)
    } else if label == "Open screenshots folder"@ {
        Some(TrayCommand::OpenFolder)
    } else if label == "Show config file"@ {
        Some(TrayCommand::RevealConfig)
    } else if label == "Start with Windows"@ {
        Some(TrayCommand::ToggleStartup)
    } else if label == "Quit"@ {
        Some(TrayCommand::Quit)
    } else {
        None
    }
}

/// What each label of the menu names.
proof fn lemma_menu_label_commands()
    ensures
        label_command("Full screenshot"@) == Some(TrayCommand::CaptureFull),
        label_command("Region screenshot"@) == Some(TrayCommand::CaptureRegion),
        label_command("Open last screenshot"@) == Some(TrayCommand::OpenLast),
        label_command("Copy last screenshot"@) == Some(TrayCommand::CopyLast),
        label_command("Open screenshots folder"@) == Some(TrayCommand::OpenFolder),
        label_command("Show config file"@) == Some(TrayCommand::RevealConfig),
        label_command("Start with Windows"@) == Some(TrayCommand::ToggleStartup),
        label_command("Quit"@) == Some(TrayCommand::Quit),
{
    reveal_strlit("Full screenshot");
    reveal_strlit("Region screenshot");
    reveal_strlit("Open last screenshot");
    reveal_strlit("Copy last screenshot");
    reveal_strlit("Open screenshots folder");
    reveal_strlit("Show config file");
    reveal_strlit("Start with Windows");
    reveal_strlit("Quit");
    assert(("Region screenshot"@)[0] != ("Full screenshot"@)[0]);
    assert(("Open last screenshot"@)[0] != ("Full screenshot"@)[0]);
    assert(("Open last screenshot"@)[0] != ("Region screenshot"@)[0]);
    assert(("Copy last screenshot"@)[0] != ("Full screenshot"@)[0]);
    assert(("Copy last screenshot"@)[0] != ("Region screenshot"@)[0]);
    assert(("Copy last screenshot"@)[0] != ("Open last screenshot"@)[0]);
    assert(("Open screenshots folder"@)[0] != ("Full screenshot"@)[0]);
    assert(("Open screenshots folder"@)[0] != ("Region screenshot"@)[0]);
    assert(("Open screenshots folder"@)[5] != ("Open last screenshot"@)[5]);
    assert(("Open screenshots folder"@)[0] != ("Copy last screenshot"@)[0]);
    assert(("Show config file"@)[0] != ("Full screenshot"@)[0]);
    assert(("Show config file"@)[0] != ("Region screenshot"@)[0]);
    assert(("Show config file"@)[0] != ("Open last screenshot"@)[0]);
    assert(("Show config file"@)[0] != ("Copy last screenshot"@)[0]);
    assert(("Show config file"@)[0] != ("Open screenshots folder"@)[0]);
    assert(("Start with Windows"@)[0] != ("Full screenshot"@)[0]);
    assert(("Start with Windows"@)[0] != ("Region screenshot"@)[0]);
    assert(("Start with Windows"@)[0] != ("Open last screenshot"@)[0]);
    assert(("Start with Windows"@)[0] != ("Copy last screenshot"@)[0]);
    assert(("Start with Windows"@)[0] != ("Open screenshots folder"@)[0]);
    assert(("Start with Windows"@)[1] != ("Show config file"@)[1]);
    assert(("Quit"@)[0] != ("Full screenshot"@)[0]);
    assert(("Quit"@)[0] != ("Region screenshot"@)[0]);
    assert(("Quit"@)[0] != ("Open last screenshot"@)[0]);
    assert(("Quit"@)[0] != ("Copy last screenshot"@)[0]);
    assert(("Quit"@)[0] != ("Open screenshots folder"@)[0]);
    assert(("Quit"@)[0] != ("Show config file"@)[0]);
    assert(("Quit"@)[0] != ("Start with Windows"@)[0]);
}

/// The tray menu: the captures, the last-screenshot entries (grayed until
/// something was captured), the folder and config entries, the startup
/// toggle (checked when on), and quit, with separators before the toggle
/// and before quit.
pub fn menu_entries(has_last_capture: bool, startup_enabled: bool) -> (entries: Vec<MenuEntry>)
    ensures
        entries@.len() == 10,
        is_item(entries@[0], MENU_FULL, "Full screenshot"@, EntryState::Enabled),
        is_item(entries@[1], MENU_REGION, "Region screenshot"@, EntryState::Enabled),
        is_item(entries@[2], MENU_OPEN_LAST, "Open last screenshot"@, if has_last_capture { EntryState::Enabled } else { EntryState::Grayed }),
        is_item(entries@[3], MENU_COPY_LAST, "Copy last screenshot"@, if has_last_capture { EntryState::Enabled } else { EntryState::Grayed }),
        is_item(entries@[4], MENU_OPEN_FOLDER, "Open screenshots folder"@, EntryState::Enabled),
        is_item(entries@[5], MENU_REVEAL_CONFIG, "Show config file"@, EntryState::Enabled),
        entries@[6] matches MenuEntry::Separator,
        is_item(entries@[7], MENU_STARTUP, "Start with Windows"@, if startup_enabled { EntryState::Checked } else { EntryState::Unchecked }),
        entries@[8] matches MenuEntry::Separator,
        is_item(entries@[9], MENU_QUIT, "Quit"@, EntryState::Enabled),
        forall|k: int| 0 <= k < entries@.len() ==> (#[trigger] entries@[k] matches MenuEntry::Item { id, label, .. } ==> menu_command_spec(id) == label_command(label@)),
{
    let last = if has_last_capture { EntryState::Enabled } else { EntryState::Grayed };
    let startup = if startup_enabled { EntryState::Checked } else { EntryState::Unchecked };
    let mut entries: Vec<MenuEntry> = Vec::new();
    entries.push(item(MENU_FULL, "Full screenshot", EntryState::Enabled));
    entries.push(item(MENU_REGION, "Region screenshot", EntryState::Enabled));
    entries.push(item(MENU_OPEN_LAST, "Open last screenshot", last));
    entries.push(item(MENU_COPY_LAST, "Copy last screenshot", last));
    entries.push(item(MENU_OPEN_FOLDER, "Open screenshots folder", EntryState::Enabled));
    entries.push(item(MENU_REVEAL_CONFIG, "Show config file", EntryState::Enabled));
    entries.push(MenuEntry::Separator);
    entries.push(item(MENU_STARTUP, "Start with Windows", startup));
    entries.push(MenuEntry::Separator);
    entries.push(item(MENU_QUIT, "Quit", EntryState::Enabled));
    proof {
        lemma_menu_label_commands();
    }
    entries
}

/// The notice after the startup setting was flipped from `was_enabled`.
pub fn startup_toggled_message(was_enabled: bool) -> (s: String)
    ensures
        s@ == if was_enabled { "Start with Windows disabled"@ } else { "Start with Windows enabled"@ },
{
    if was_enabled {
        String::from_str("Start with Windows disabled")
    } else {
        String::from_str("Start with Windows enabled")
    }
}

/// The last screenshot, or the notice that there is none yet.
pub fn last_capture_path(last: Option<String>) -> (r: Result<String, String>)
    ensures
        last matches Some(p) ==> (r matches Ok(q) && q@ == p@),
        last is None ==> (r matches Err(m) && m@ == "no screenshot has been captured yet"@),
{
    match last {
        Some(path) => Ok(path),
        None => Err(String::from_str("no screenshot has been captured yet")),
    }
}

/// What a saved-screenshot notice names: the file name, or a generic phrase
/// when the path has none.
pub fn display_name(file_name: Option<&str>) -> (s: String)
    ensures
        file_name matches Some(n) ==> s@ == n@,
        file_name is None ==> s@ == "screenshot saved"@,
{
    match file_name {
        Some(name) => String::from_str(name),
        None => String::from_str("screenshot saved"),
    }
}

/// Side of the square tray icon in pixels.
pub const ICON_SIZE: usize = 32;

/// A pixel of the icon's color bitmap: blue in the low byte, then green, then red.
pub fn bgra(red: u8, green: u8, blue: u8) -> (c: u32)
    ensures
        c == blue as u32 + 256 * green as u32 + 65536 * red as u32,
{
    let c = (blue as u32) | ((green as u32) << 8) | ((red as u32) << 16);
    assert(c == blue as u32 + 256 * green as u32 + 65536 * red as u32) by (bit_vector)
        requires
            c == (blue as u32) | ((green as u32) << 8) | ((red as u32) << 16),
    ;
    c
}

/// The icon mask byte that holds the bit of pixel `(x, y)`, and that bit's
/// position in it (the leftmost pixel in the highest bit).
pub open spec fn mask_byte(x: int, y: int) -> int {
    y * 4 + x / 8
}

pub open spec fn mask_bit(x: int) -> int {
    7 - x % 8
}

/// Marks pixel `(x, y)` of the icon as drawn by clearing its mask bit.
pub fn clear_mask_bit(mask: &mut Vec<u8>, x: usize, y: usize)
    requires
        old(mask)@.len() == ICON_SIZE * ICON_SIZE / 8,
        x < ICON_SIZE,
        y < ICON_SIZE,
    ensures
        final(mask)@ == old(mask)@.update(
            mask_byte(x as int, y as int),
            old(mask)@[mask_byte(x as int, y as int)] & !(1u8 << (mask_bit(x as int) as u8)),
        ),
{
    assert(ICON_SIZE * ICON_SIZE / 8 == 128);
    // Each row of the mask is ICON_SIZE / 8 = 4 bytes.
    let byte = y * 4 + x / 8;
    let bit = 7 - (x % 8);
    let value = mask[byte] & !(1u8 << (bit as u8));
    mask.set(byte, value);
}

impl TrayError {
    /// The text shown for the error.
    pub fn message(&self) -> (s: String)
        ensures
            s@ == match *self {
                TrayError::Unsupported => "tray mode is only supported on Windows"@,
                TrayError::Window => "failed to start tray mode"@,
                TrayError::Capture(e) => capture_error_text(e),
                TrayError::Config(e) => config_error_text(e),
                TrayError::Interactive(e) => interactive_error_text(e),
            },
    {
        match self {
            TrayError::Unsupported => String::from_str("tray mode is only supported on Windows"),
            TrayError::Window => String::from_str("failed to start tray mode"),
            TrayError::Capture(e) => e.message(),
            TrayError::Config(e) => e.message(),
            TrayError::Interactive(e) => e.message(),
        }
    }
}

} // verus!
