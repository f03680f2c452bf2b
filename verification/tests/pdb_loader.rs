use kernel::loader::{
    apply_relocations, ensure_region_fit, prepare_image, ram_budget_bytes, zero_bss_tail,
    LoadAndRunError, LoaderError, PrepareImageError, PreparedImage,
};
use kernel::pdb::{
    parse_fixed_header, payload_views, validate_header_identity, validate_payload_integrity,
    PdbError, PdbHeader, PDB_HEADER_SIZE, PDB_MAGIC,
};

fn crc32_reference(bytes: &[u8]) -> u32 {
    let mut crc = 0xFFFF_FFFFu32;
    for &b in bytes {
        crc ^= b as u32;
        for _ in 0..8 {
            crc = if crc & 1 == 1 { (crc >> 1) ^ 0xEDB8_8320 } else { crc >> 1 };
        }
    }
    !crc
}

struct Spec {
    entry: u32,
    text: Vec<u8>,
    data: Vec<u8>,
    bss: u32,
    relocs: Vec<u32>,
    min_heap: u32,
}

fn build_pdb(s: &Spec) -> Vec<u8> {
    let mut payload = Vec::new();
    for r in &s.relocs {
        payload.extend_from_slice(&r.to_le_bytes());
    }
    payload.extend_from_slice(&s.text);
    payload.extend_from_slice(&s.data);
    let mut h = vec![0u8; PDB_HEADER_SIZE];
    h[0..4].copy_from_slice(&PDB_MAGIC.to_le_bytes());
    h[4..6].copy_from_slice(&1u16.to_le_bytes());
    h[6..8].copy_from_slice(&1u16.to_le_bytes());
    h[8..12].copy_from_slice(&s.entry.to_le_bytes());
    h[12..16].copy_from_slice(&(s.text.len() as u32).to_le_bytes());
    h[16..20].copy_from_slice(&(s.data.len() as u32).to_le_bytes());
    h[20..24].copy_from_slice(&s.bss.to_le_bytes());
    h[24..28].copy_from_slice(&(s.relocs.len() as u32).to_le_bytes());
    h[28..32].copy_from_slice(&0x5u32.to_le_bytes());
    h[0x20..0x25].copy_from_slice(b"HELLO");
    h[0x40..0x43].copy_from_slice(b"1.0");
    h[0x60..0x64].copy_from_slice(&s.min_heap.to_le_bytes());
    h[0x64..0x68].copy_from_slice(&crc32_reference(&payload).to_le_bytes());
    h.extend_from_slice(&payload);
    h
}

fn sample() -> Spec {
    Spec {
        entry: 4,
        text: vec![0x10, 0, 0, 0, 0xAA, 0xBB, 0xCC, 0xDD],
        data: vec![0xFF, 0xFF, 0xFF, 0xFF],
        bss: 4,
        relocs: vec![0, 8],
        min_heap: 16,
    }
}

#[test]
fn parse_reads_each_field_little_endian() {
    let bytes = build_pdb(&sample());
    let h = parse_fixed_header(&bytes).unwrap();
    assert_eq!(h.magic, PDB_MAGIC);
    assert_eq!(h.format_version, 1);
    assert_eq!(h.abi_version, 1);
    assert_eq!(h.entry_offset, 4);
    assert_eq!(h.text_size, 8);
    assert_eq!(h.data_size, 4);
    assert_eq!(h.bss_size, 4);
    assert_eq!(h.reloc_count, 2);
    assert_eq!(h.flags, 5);
    assert_eq!(&h.app_name[..5], b"HELLO");
    assert_eq!(h.app_name[5], 0);
    assert_eq!(&h.app_version[..3], b"1.0");
    assert_eq!(h.min_heap, 16);
}

#[test]
fn parse_rejects_short_header() {
    let bytes = [0u8; 103];
    assert_eq!(parse_fixed_header(&bytes), Err(PdbError::HeaderTooShort { found: 103 }));
}

#[test]
fn identity_errors_in_order() {
    let bytes = build_pdb(&sample());
    let good = parse_fixed_header(&bytes).unwrap();
    assert_eq!(validate_header_identity(&good), Ok(()));
    let bad_magic = PdbHeader { magic: 0x1234, format_version: 9, ..good };
    assert_eq!(validate_header_identity(&bad_magic), Err(PdbError::BadMagic { found: 0x1234 }));
    let bad_format = PdbHeader { format_version: 2, abi_version: 7, ..good };
    assert_eq!(
        validate_header_identity(&bad_format),
        Err(PdbError::UnsupportedFormatVersion { found: 2 })
    );
    let bad_abi = PdbHeader { abi_version: 7, ..good };
    assert_eq!(validate_header_identity(&bad_abi), Err(PdbError::UnsupportedAbiVersion { found: 7 }));
}

#[test]
fn checksum_is_ieee_crc32() {
    // The standard check value of CRC-32 for "123456789" is 0xCBF43926.
    let mut bytes = vec![0u8; PDB_HEADER_SIZE];
    bytes.extend_from_slice(b"123456789");
    let header = PdbHeader {
        magic: PDB_MAGIC,
        format_version: 1,
        abi_version: 1,
        entry_offset: 0,
        text_size: 9,
        data_size: 0,
        bss_size: 0,
        reloc_count: 0,
        flags: 0,
        app_name: [0; 32],
        app_version: [0; 32],
        min_heap: 0,
        checksum: 0xCBF4_3926,
    };
    assert_eq!(validate_payload_integrity(&header, &bytes), Ok(()));
    let wrong = PdbHeader { checksum: 1, ..header };
    assert_eq!(
        validate_payload_integrity(&wrong, &bytes),
        Err(PdbError::ChecksumMismatch { expected: 1, found: 0xCBF4_3926 })
    );
}

#[test]
fn payload_size_and_overflow_errors() {
    let bytes = build_pdb(&sample());
    let h = parse_fixed_header(&bytes).unwrap();
    let longer = PdbHeader { data_size: 5, ..h };
    assert_eq!(
        validate_payload_integrity(&longer, &bytes),
        Err(PdbError::PayloadSizeMismatch { expected: 21, found: 20 })
    );
    let overflow = PdbHeader { reloc_count: 0x4000_0000, ..h };
    assert_eq!(validate_payload_integrity(&overflow, &bytes), Err(PdbError::PayloadLengthOverflow));
    let overflow_sum = PdbHeader { text_size: u32::MAX, ..h };
    assert_eq!(validate_payload_integrity(&overflow_sum, &bytes), Err(PdbError::PayloadLengthOverflow));
}

#[test]
fn payload_views_split_relocs_and_image() {
    let bytes = build_pdb(&sample());
    let h = parse_fixed_header(&bytes).unwrap();
    let v = payload_views(&h, &bytes).unwrap();
    assert_eq!(v.reloc_table, &[0, 0, 0, 0, 8, 0, 0, 0]);
    assert_eq!(v.image, &[0x10, 0, 0, 0, 0xAA, 0xBB, 0xCC, 0xDD, 0xFF, 0xFF, 0xFF, 0xFF]);
}

#[test]
fn ram_budget_sums_and_overflows() {
    let bytes = build_pdb(&sample());
    let h = parse_fixed_header(&bytes).unwrap();
    assert_eq!(ram_budget_bytes(&h), Ok(8 + 4 + 4 + 16));
    let big = PdbHeader { min_heap: u32::MAX - 10, ..h };
    assert_eq!(ram_budget_bytes(&big), Err(LoaderError::RamBudgetOverflow));
}

#[test]
fn region_fit() {
    assert_eq!(ensure_region_fit(10, 10), Ok(()));
    assert_eq!(
        ensure_region_fit(11, 10),
        Err(LoaderError::AppRegionTooSmall { required: 11, available: 10 })
    );
}

#[test]
fn zero_bss_clears_only_the_tail() {
    let mut region = [7u8; 8];
    assert_eq!(zero_bss_tail(&mut region, 2, 3), Ok(()));
    assert_eq!(region, [7, 7, 0, 0, 0, 7, 7, 7]);
    assert_eq!(
        zero_bss_tail(&mut region, 6, 3),
        Err(LoaderError::BssOutOfBounds { start: 6, end: 9, region_len: 8 })
    );
    assert_eq!(region, [7, 7, 0, 0, 0, 7, 7, 7]);
}

#[test]
fn relocation_adds_load_address_with_wraparound() {
    let mut image = [1u8, 0, 0, 0, 0xFF, 0xFF, 0xFF, 0xFF];
    let table = [0u8, 0, 0, 0, 4, 0, 0, 0];
    assert_eq!(apply_relocations(&mut image, &table, 0x1000), Ok(()));
    assert_eq!(image, [0x01, 0x10, 0, 0, 0xFF, 0x0F, 0, 0]);
}

#[test]
fn relocation_out_of_bounds_stops_after_earlier_entries() {
    let mut image = [1u8, 0, 0, 0, 0, 0];
    let table = [0u8, 0, 0, 0, 3, 0, 0, 0, 0, 0, 0, 0];
    assert_eq!(
        apply_relocations(&mut image, &table, 2),
        Err(LoaderError::RelocationOutOfBounds { offset: 3, image_len: 6 })
    );
    assert_eq!(image, [3, 0, 0, 0, 0, 0]);
}

#[test]
fn relocation_ignores_trailing_partial_entry() {
    let mut image = [0u8; 4];
    let table = [0u8, 0, 0, 0, 9, 9];
    assert_eq!(apply_relocations(&mut image, &table, 5), Ok(()));
    assert_eq!(image, [5, 0, 0, 0]);
}

#[test]
fn prepare_image_lays_out_and_relocates() {
    let bytes = build_pdb(&sample());
    let mut region = [0x55u8; 40];
    let r = prepare_image(&bytes, &mut region, 0x100);
    assert_eq!(
        r,
        Ok(PreparedImage { entry_offset: 4, image_size: 12, total_ram: 32, min_heap: 16 })
    );
    assert_eq!(&region[..12], &[0x10, 0x01, 0, 0, 0xAA, 0xBB, 0xCC, 0xDD, 0xFF, 0x00, 0x00, 0x00]);
    assert_eq!(&region[12..16], &[0, 0, 0, 0]);
    assert_eq!(&region[16..], &[0x55u8; 24]);
}

#[test]
fn prepare_image_errors() {
    let mut region = [0u8; 40];
    assert_eq!(
        prepare_image(&[0u8; 10], &mut region, 0),
        Err(PrepareImageError::Pdb(PdbError::HeaderTooShort { found: 10 }))
    );
    let bytes = build_pdb(&sample());
    let mut small = [0u8; 31];
    assert_eq!(
        prepare_image(&bytes, &mut small, 0),
        Err(PrepareImageError::Loader(LoaderError::AppRegionTooSmall { required: 32, available: 31 }))
    );
    let mut s = sample();
    s.entry = 8;
    let bytes = build_pdb(&s);
    assert_eq!(
        prepare_image(&bytes, &mut region, 0),
        Err(PrepareImageError::Loader(LoaderError::EntryOffsetOutOfBounds {
            entry_offset: 8,
            image_len: 8
        }))
    );
    let mut s = sample();
    s.relocs = vec![10];
    let bytes = build_pdb(&s);
    assert_eq!(
        prepare_image(&bytes, &mut region, 0),
        Err(PrepareImageError::Loader(LoaderError::RelocationOutOfBounds {
            offset: 10,
            image_len: 12
        }))
    );
    let mut corrupt = build_pdb(&sample());
    corrupt[0] = 0;
    assert!(matches!(
        prepare_image(&corrupt, &mut region, 0),
        Err(PrepareImageError::Pdb(PdbError::BadMagic { .. }))
    ));
}

#[test]
fn error_conversions() {
    let e: PrepareImageError = PdbError::PayloadLengthOverflow.into();
    assert_eq!(e, PrepareImageError::Pdb(PdbError::PayloadLengthOverflow));
    let e: PrepareImageError = LoaderError::RamBudgetOverflow.into();
    assert_eq!(e, PrepareImageError::Loader(LoaderError::RamBudgetOverflow));
    let l: LoadAndRunError = e.into();
    assert_eq!(l, LoadAndRunError::PrepareImage(e));
}
