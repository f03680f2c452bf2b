use kernel::boot::{boot, check_boot_probe, AbiMetadata};
use kernel::boot_app::{account_read, check_pdb_fits, LoadAndRunError};
use kernel::device::raw_gpio::{func_out_select_register, io_mux_register, select_gpio_function, RawOutputPin};
use kernel::platform::{HostPlatform, HostStorage, HostSupport, KernelSupport, LogLevel, StorageError, StorageReader};
use kernel::storage::fs::{finish_read, short_name_bytes, stat_target, DirHandle, PdStat, StatScan, DirScan, DirSlots, EntryType, FileHandle, FileSlots, PdDirEntry};
use kernel::storage::sd::{
    block_from_response, build_cmd, check_write_command, check_write_response, r1_from_response, r7_from_response,
    sd_init_advance, sd_init_request, write_block_frame, CardKind, SdCard, SdInitState, SdReply,
    SdRequest,
};
use kernel::syscall::{build_syscall_table, SyscallEntryPoints};

fn pdb_header() -> [u8; 104] {
    let mut h = [0u8; 104];
    h[0..4].copy_from_slice(&0x534F_4450u32.to_le_bytes());
    h[4] = 1;
    h[6] = 1;
    h
}

#[test]
fn host_storage_reads_only_its_file() {
    let data = [1u8, 2, 3];
    let s = HostStorage::new("APP.PDB", &data);
    let mut buf = [9u8; 5];
    assert_eq!(s.read("APP.PDB", &mut buf), Ok(3));
    assert_eq!(buf, [1, 2, 3, 9, 9]);
    assert_eq!(s.read("OTHER", &mut buf), Err(StorageError::NotFound));
    let mut small = [0u8; 2];
    assert_eq!(s.read("APP.PDB", &mut small), Err(StorageError::NotFound));
    assert_eq!(small, [0, 0]);
}

#[test]
fn host_support_records_calls() {
    let mut s = HostSupport::new(42);
    assert_eq!(s.millis(), 42);
    assert!(!s.watchdog_fed());
    s.sleep_ms(7);
    assert_eq!(s.last_sleep_ms(), 7);
    s.feed_watchdog();
    assert!(s.watchdog_fed());
    assert!(!s.logged());
    s.log(LogLevel::Warn, "x");
    assert!(s.logged());
}

#[test]
fn boot_accepts_valid_probe() {
    let header = pdb_header();
    let mut p = HostPlatform::new("BOOT.PDB", &header, 1234);
    let state = boot(&p.storage, &mut p.support, "BOOT.PDB").unwrap();
    assert_eq!(state.boot_millis, 1234);
    assert_eq!(state.storage_probe_len, 104);
    assert_eq!(state.abi, AbiMetadata { abi_version: 1, kernel_version: 1 });
    assert!(p.support.watchdog_fed());
    assert!(p.support.logged());
}

#[test]
fn boot_rejects_bad_probes() {
    let mut header = pdb_header();
    header[0] = 0;
    let mut p = HostPlatform::new("BOOT.PDB", &header, 1);
    assert_eq!(boot(&p.storage, &mut p.support, "BOOT.PDB"), Err(StorageError::InvalidData));
    assert!(!p.support.watchdog_fed());
    let short = [0u8; 50];
    let mut p = HostPlatform::new("BOOT.PDB", &short, 1);
    assert_eq!(boot(&p.storage, &mut p.support, "BOOT.PDB"), Err(StorageError::InvalidData));
    let mut p = HostPlatform::new("BOOT.PDB", &short, 1);
    assert_eq!(boot(&p.storage, &mut p.support, "MISSING"), Err(StorageError::NotFound));
    assert_eq!(check_boot_probe(Err(StorageError::NotFound), &pdb_header()), Err(StorageError::NotFound));
    assert_eq!(check_boot_probe(Ok(104), &pdb_header()), Ok(104));
    assert_eq!(check_boot_probe(Ok(103), &pdb_header()), Err(StorageError::InvalidData));
}

#[test]
fn handles_round_trip() {
    assert_eq!(FileHandle::from_raw(-1), None);
    assert_eq!(FileHandle::from_raw(256), None);
    assert_eq!(FileHandle::from_raw(7).unwrap().to_raw(), 7);
    assert_eq!(DirHandle::from_raw(255).unwrap().to_raw(), 255);
    assert_eq!(DirHandle::from_raw(300), None);
}

#[test]
fn file_slots_claim_lowest_free() {
    let mut t: FileSlots<u32> = FileSlots::new();
    let mut hs = Vec::new();
    for i in 0..8 {
        hs.push(t.claim(100 + i).unwrap());
    }
    assert_eq!(t.claim(999), None);
    assert_eq!(t.get(hs[3]), Some(103));
    assert_eq!(t.release(hs[3]), Some(103));
    assert_eq!(t.get(hs[3]), None);
    assert_eq!(t.release(hs[3]), None);
    let h = t.claim(500).unwrap();
    assert_eq!(h.to_raw(), 3);
    assert_eq!(t.get(FileHandle::from_raw(200).unwrap()), None);
}

#[test]
fn dir_slots_track_read_position() {
    let mut t: DirSlots<u8> = DirSlots::new();
    let a = t.claim(1).unwrap();
    let b = t.claim(2).unwrap();
    t.claim(3).unwrap();
    t.claim(4).unwrap();
    assert_eq!(t.claim(5), None);
    t.advance(b);
    t.advance(b);
    assert_eq!(t.get(b), Some((2, 2)));
    assert_eq!(t.get(a), Some((1, 0)));
    assert_eq!(t.release(a), Some((1, 0)));
    t.advance(a);
    assert_eq!(t.get(a), None);
    assert_eq!(t.claim(9).unwrap().to_raw(), 0);
}

#[test]
fn dir_scan_picks_target_entry() {
    let mut s = DirScan::new(1);
    s.visit(short_name_bytes(b"A", b"TXT"), false, 5);
    s.visit(short_name_bytes(b"SUBDIR", b""), true, 0);
    s.visit(short_name_bytes(b"C", b"PDB"), false, 9);
    assert_eq!(
        s.found(),
        Some(PdDirEntry { name: *b"SUBDIR     ", entry_type: EntryType::Directory, size: 0 })
    );
    let mut past = DirScan::new(5);
    past.visit(short_name_bytes(b"A", b""), false, 0);
    assert_eq!(past.found(), None);
    assert_eq!(&short_name_bytes(b"GAME", b"PDB"), b"GAME    PDB");
    let mut exact = DirScan::new(1);
    exact.visit(short_name_bytes(b"A", b""), false, 0);
    assert_eq!(exact.found(), None);
    exact.visit(short_name_bytes(b"B", b""), false, 7);
    assert_eq!(exact.found().map(|e| e.size), Some(7));
}

#[test]
fn write_command_needs_zero_r1() {
    assert_eq!(check_write_command(0), Ok(()));
    assert_eq!(check_write_command(0x04), Err(kernel::storage::StorageError::IoError));
}

#[test]
fn handles_round_trip_through_raw() {
    let h = FileHandle::from_raw(7).unwrap();
    assert_eq!(FileHandle::from_raw(h.to_raw()), Some(h));
    let d = DirHandle::from_raw(3).unwrap();
    assert_eq!(DirHandle::from_raw(d.to_raw()), Some(d));
    assert_eq!(FileHandle::from_raw(256), None);
}

#[test]
fn sd_frames_and_responses() {
    assert_eq!(build_cmd(0, 0, 0x95), [0x40, 0, 0, 0, 0, 0x95]);
    assert_eq!(build_cmd(8, 0x1AA, 0x87), [0x48, 0, 0, 0x01, 0xAA, 0x87]);
    assert_eq!(build_cmd(17, 0x1234_5678, 0xFF), [0x51, 0x12, 0x34, 0x56, 0x78, 0xFF]);
    assert_eq!(r1_from_response(&[0xFF, 0x01, 0x00]), Ok(0x01));
    assert_eq!(r1_from_response(&[0xFF, 0xFF, 0xFF]), Err(kernel::storage::StorageError::IoError));
    assert_eq!(r7_from_response(&[0xFF, 1, 0, 0, 1, 0xAA, 0xFF]), Ok([1, 0, 0, 1, 0xAA]));
    assert_eq!(
        r7_from_response(&[0xFF, 0xFF, 0xFF, 1, 0, 0, 1]),
        Err(kernel::storage::StorageError::IoError)
    );
    let mut resp = [0xFFu8; 520];
    resp[1] = 0x00;
    resp[3] = 0xFE;
    for i in 0..512 {
        resp[4 + i] = i as u8;
    }
    let mut block = [0u8; 512];
    assert_eq!(block_from_response(&resp, &mut block), Ok(()));
    assert_eq!(block[0], 0);
    assert_eq!(block[511], 255);
    resp[1] = 0x04;
    let mut untouched = [7u8; 512];
    assert_eq!(block_from_response(&resp, &mut untouched), Err(kernel::storage::StorageError::IoError));
    assert_eq!(untouched, [7u8; 512]);
    let frame = write_block_frame(&[3u8; 512]);
    assert_eq!(frame[0], 0xFE);
    assert_eq!(frame[512], 3);
    assert_eq!(&frame[513..], &[0xFF, 0xFF]);
    assert_eq!(check_write_response(&[0xFF, 0xE5, 0xFF]), Ok(()));
    assert_eq!(check_write_response(&[0x0B, 0xFF, 0xFF]), Err(kernel::storage::StorageError::IoError));
    assert_eq!(check_write_response(&[0xFF; 3]), Err(kernel::storage::StorageError::IoError));
}

#[test]
fn sd_init_sequence_to_sdhc() {
    let mut s = SdInitState::PowerUp;
    assert_eq!(sd_init_request(&s), Some(SdRequest::Clocks));
    s = sd_init_advance(s, SdReply::Sent);
    assert_eq!(sd_init_request(&s), Some(SdRequest::R1 { cmd: 0, arg: 0, crc: 0x95 }));
    s = sd_init_advance(s, SdReply::R1(1));
    assert_eq!(sd_init_request(&s), Some(SdRequest::R7 { cmd: 8, arg: 0x1AA, crc: 0x87 }));
    s = sd_init_advance(s, SdReply::R7([1, 0, 0, 1, 0xAA]));
    for _ in 0..3 {
        assert_eq!(sd_init_request(&s), Some(SdRequest::R1 { cmd: 55, arg: 0, crc: 0x65 }));
        s = sd_init_advance(s, SdReply::R1(1));
        assert_eq!(sd_init_request(&s), Some(SdRequest::R1 { cmd: 41, arg: 0x4000_0000, crc: 0x77 }));
        s = sd_init_advance(s, SdReply::R1(1));
    }
    s = sd_init_advance(s, SdReply::R1(0));
    s = sd_init_advance(s, SdReply::R1(0));
    assert_eq!(s, SdInitState::ReadOcr);
    s = sd_init_advance(s, SdReply::R7([0, 0xC0, 0xFF, 0x80, 0]));
    assert_eq!(s, SdInitState::Ready(CardKind::Sdhc));
    assert_eq!(sd_init_request(&s), None);
}

#[test]
fn sd_init_failures() {
    assert_eq!(
        sd_init_advance(SdInitState::GoIdle, SdReply::R1(0)),
        SdInitState::Failed(kernel::storage::StorageError::NotReady)
    );
    assert_eq!(
        sd_init_advance(SdInitState::CheckVoltage, SdReply::R7([5, 0, 0, 0, 0])),
        SdInitState::Failed(kernel::storage::StorageError::NotReady)
    );
    assert_eq!(
        sd_init_advance(SdInitState::AppCommand { attempt: 0 }, SdReply::R1(0x04)),
        SdInitState::Failed(kernel::storage::StorageError::IoError)
    );
    assert_eq!(
        sd_init_advance(SdInitState::OpCondition { attempt: 9 }, SdReply::R1(1)),
        SdInitState::Failed(kernel::storage::StorageError::NotReady)
    );
    assert_eq!(
        sd_init_advance(SdInitState::ReadOcr, SdReply::R7([0, 0, 0, 0, 0])),
        SdInitState::Ready(CardKind::Sdsc)
    );
    assert_eq!(
        sd_init_advance(SdInitState::PowerUp, SdReply::Failed(kernel::storage::StorageError::NotReady)),
        SdInitState::Failed(kernel::storage::StorageError::IoError)
    );
}

#[test]
fn sd_card_owns_its_bus() {
    let mut card = SdCard::new(5u32);
    *card.spi_mut() = 6;
    assert_eq!(card.into_spi(), 6);
}

#[test]
fn load_decisions() {
    assert_eq!(check_pdb_fits(10, 10), Ok(10));
    assert_eq!(
        check_pdb_fits(11, 10),
        Err(LoadAndRunError::FileTooLarge { size: 11, capacity: 10 })
    );
    assert_eq!(account_read(4, 3, 10), Ok(7));
    assert_eq!(account_read(4, 0, 10), Err(LoadAndRunError::ShortRead { expected: 10, read: 4 }));
    let e: LoadAndRunError = kernel::storage::StorageError::NoSpace.into();
    assert_eq!(e, LoadAndRunError::Storage(kernel::storage::StorageError::NoSpace));
}

#[test]
fn raw_gpio_registers() {
    assert_eq!(RawOutputPin::from_pin(12).mask(), 1 << 12);
    assert_eq!(io_mux_register(12), 0x6000_9030);
    assert_eq!(func_out_select_register(12), 0x6000_4584);
    assert_eq!(select_gpio_function(0xFFFF_FFFF), 0xFFFF_9FFF);
    assert_eq!(select_gpio_function(0), 0x1000);
}

fn entries() -> SyscallEntryPoints {
    SyscallEntryPoints {
        display_clear: 1, display_set_pixel: 2, display_draw_rect: 3, display_fill_rect: 4,
        display_draw_bitmap: 5, display_draw_text: 6, display_refresh: 7, display_set_rotation: 8,
        display_width: 9, display_height: 10, input_get_buttons: 11, input_wait_button: 12,
        input_get_battery_pct: 13, fs_open: 14, fs_close: 15, fs_read: 16, fs_write: 17,
        fs_seek: 18, fs_tell: 19, fs_eof: 20, fs_mkdir: 21, fs_remove: 22, fs_opendir: 23,
        fs_readdir: 24, fs_closedir: 25, fs_stat: 26, net_wifi_connect: 27,
        net_wifi_disconnect: 28, net_wifi_status: 29, net_http_get: 30, net_http_post: 31,
        net_http_begin: 32, net_http_set_header: 33, net_http_send: 34, net_http_read: 35,
        net_http_status_code: 36, net_http_end: 37, sys_sleep_ms: 38, sys_millis: 39,
        sys_exit: 40, sys_log: 41, sys_get_free_heap: 42, mem_alloc: 43, mem_free: 44,
        mem_realloc: 45, font_load: 46, font_free: 47, font_text_width: 48, font_line_height: 49,
    }
}

#[test]
fn syscall_table_layout() {
    let t = build_syscall_table(0x3FC8_0000, 96 * 1024, &entries());
    assert_eq!(t.abi_version, 1);
    assert_eq!(t.kernel_version, 0);
    assert_eq!(t.app_heap_start, 0x3FC8_0000);
    assert_eq!(t.app_heap_size, 98304);
    assert_eq!(t.display_clear, 1);
    assert_eq!(t.fs_stat, 26);
    assert_eq!(t.sys_exit, 40);
    assert_eq!(t.sys_reboot, 0);
    assert_eq!(t.sys_log, 41);
    assert_eq!(t.sys_wifi_release, 0);
    assert_eq!(t.sys_wifi_acquire, 0);
    assert_eq!(t.font_line_height, 49);
}

#[test]
fn successive_reads_walk_the_listing() {
    let listing = [
        (short_name_bytes(b"A", b"PDB"), false, 1u32),
        (short_name_bytes(b"B", b""), true, 0u32),
    ];
    let mut slots: DirSlots<u8> = DirSlots::new();
    let h = slots.claim(9).unwrap();
    let mut got = Vec::new();
    for _ in 0..4 {
        let (_, pos) = slots.get(h).unwrap();
        let mut scan = DirScan::new(pos);
        for (name, dir, size) in listing.iter() {
            scan.visit(*name, *dir, *size);
        }
        got.push(finish_read(&mut slots, h, &scan).map(|e| e.size));
    }
    assert_eq!(got, vec![Some(1), Some(0), None, None]);
    assert_eq!(slots.get(h), Some((9, 2)));
}

#[test]
fn stat_target_pads_the_short_name() {
    assert_eq!(stat_target("game.pdb"), Ok(*b"GAME    PDB"));
    assert_eq!(stat_target("README"), Ok(*b"README     "));
    assert_eq!(stat_target("toolongname.txt"), Err(kernel::storage::StorageError::InvalidFormat));
    assert_eq!(stat_target("a*b"), Err(kernel::storage::StorageError::InvalidFormat));
}

#[test]
fn stat_scan_reports_the_last_match() {
    let mut scan = StatScan::new(*b"GAME    PDB");
    assert_eq!(scan.finish(), Err(kernel::storage::StorageError::NotFound));
    scan.visit(*b"OTHER   TXT", false, 5);
    assert_eq!(scan.finish(), Err(kernel::storage::StorageError::NotFound));
    scan.visit(*b"GAME    PDB", false, 300);
    scan.visit(*b"APPS       ", true, 0);
    assert_eq!(scan.finish(), Ok(PdStat { entry_type: EntryType::File, size: 300 }));
    scan.visit(*b"GAME    PDB", true, 0);
    assert_eq!(scan.finish(), Ok(PdStat { entry_type: EntryType::Directory, size: 0 }));
}
