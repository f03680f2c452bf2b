use kernel::launcher::{
    draw_text, format_app_name, launcher_on_buttons, render_launcher, scan_apps_step, AppInfo,
    LauncherAction, LauncherState, MAX_APPS,
};
use kernel::storage::fs::{EntryType, PdDirEntry};
use kernel::syscall::display::{display_clear_to, FRAME_BYTES};

fn frame_pixel(buf: &[u8], x: usize, y: usize) -> bool {
    buf[(479 - x) * 100 + y / 8] & (0x80 >> (y % 8)) != 0
}

fn name11(s: &[u8; 11]) -> [u8; 11] {
    *s
}

#[test]
fn format_names() {
    let mut out = [0xAAu8; 13];
    assert_eq!(format_app_name(&name11(b"HELLO   PDB"), &mut out), 9);
    assert_eq!(&out[..9], b"HELLO.PDB");
    assert_eq!(out[9], 0xAA);
    let mut out = [0u8; 13];
    assert_eq!(format_app_name(&name11(b"README     "), &mut out), 6);
    assert_eq!(&out[..6], b"README");
    assert_eq!(format_app_name(&name11(b"ABCDEFGHTXT"), &mut out), 12);
    assert_eq!(&out[..12], b"ABCDEFGH.TXT");
    assert_eq!(format_app_name(&name11(b"A B     C  "), &mut out), 3);
    assert_eq!(&out[..3], b"A.C");
}

#[test]
fn launcher_wraps_both_ways() {
    let mut s = LauncherState::new(3);
    s.move_up();
    assert_eq!(s.selected, 2);
    s.move_down();
    assert_eq!(s.selected, 0);
    s.move_down();
    s.move_down();
    assert_eq!(s.selected, 2);
    s.move_up();
    assert_eq!(s.selected, 1);
    let mut empty = LauncherState::new(0);
    empty.move_up();
    empty.move_down();
    assert_eq!(empty.selected, 0);
}

#[test]
fn launcher_buttons() {
    let mut s = LauncherState::new(2);
    assert_eq!(launcher_on_buttons(&mut s, 0x02), LauncherAction::Redraw);
    assert_eq!(s.selected, 1);
    assert_eq!(launcher_on_buttons(&mut s, 0x02 | 0x01), LauncherAction::Redraw);
    assert_eq!(s.selected, 0);
    assert_eq!(launcher_on_buttons(&mut s, 0x01), LauncherAction::Redraw);
    assert_eq!(s.selected, 1);
    assert_eq!(launcher_on_buttons(&mut s, 0x10), LauncherAction::Launch(1));
    assert_eq!(launcher_on_buttons(&mut s, 0x20), LauncherAction::Idle);
    let mut one = LauncherState::new(1);
    assert_eq!(launcher_on_buttons(&mut one, 0x02), LauncherAction::Idle);
    let mut none = LauncherState::new(0);
    assert_eq!(launcher_on_buttons(&mut none, 0x10), LauncherAction::Idle);
}

#[test]
fn scan_keeps_pdb_files_up_to_capacity() {
    let mut apps = [AppInfo::default(); MAX_APPS];
    let file = PdDirEntry { name: *b"GAME    PDB", entry_type: EntryType::File, size: 10 };
    let dir = PdDirEntry { name: *b"APPS    PDB", entry_type: EntryType::Directory, size: 0 };
    let text = PdDirEntry { name: *b"NOTES   TXT", entry_type: EntryType::File, size: 1 };
    assert_eq!(scan_apps_step(&dir, &mut apps, 0), Some(0));
    assert_eq!(scan_apps_step(&text, &mut apps, 0), Some(0));
    assert_eq!(scan_apps_step(&file, &mut apps, 0), Some(1));
    assert_eq!(&apps[0].filename, b"GAME    PDB");
    assert_eq!(&apps[1].filename, b"           ");
    assert_eq!(scan_apps_step(&file, &mut apps, MAX_APPS), None);
}

#[test]
fn draw_text_inks_glyph_cells() {
    let mut buf = [0u8; FRAME_BYTES];
    display_clear_to(&mut buf, 0xFF);
    draw_text(&mut buf, 0, 0, b"-", 0x00);
    // '-' is the middle row (row 3) fully inked: pixels y in 12..16, x in 0..20.
    assert!(!frame_pixel(&buf, 0, 12));
    assert!(!frame_pixel(&buf, 19, 15));
    assert!(frame_pixel(&buf, 20, 12));
    assert!(frame_pixel(&buf, 0, 11));
    assert!(frame_pixel(&buf, 0, 16));
    let mut lower = [0u8; FRAME_BYTES];
    let mut upper = [0u8; FRAME_BYTES];
    draw_text(&mut lower, 30, 40, b"ab", 0xFF);
    draw_text(&mut upper, 30, 40, b"AB", 0xFF);
    assert!(lower[..] == upper[..]);
}

#[test]
fn render_launcher_highlights_selection() {
    let mut buf = [0u8; FRAME_BYTES];
    let apps = [
        AppInfo { filename: *b"ONE     PDB" },
        AppInfo { filename: *b"TWO     PDB" },
    ];
    let state = LauncherState { count: 2, selected: 1 };
    render_launcher(&mut buf, &apps, &state);
    // Row 0: white background, black text ('O' top row at y = 10, x = 16 + 4).
    assert!(frame_pixel(&buf, 0, 0));
    assert!(!frame_pixel(&buf, 20, 10));
    // Row 1: black bar, white text.
    assert!(!frame_pixel(&buf, 0, 48));
    assert!(!frame_pixel(&buf, 479, 95));
    assert!(frame_pixel(&buf, 16, 58));
    assert!(frame_pixel(&buf, 0, 96));
}
