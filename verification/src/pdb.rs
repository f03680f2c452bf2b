use vstd::prelude::*;
use vstd::slice::slice_subrange;

verus! {

/// `"PDOS"` read as a little-endian `u32`.
pub const PDB_MAGIC: u32 = 0x534F4450;
pub const PDB_FORMAT_VERSION: u16 = 1;
pub const PDB_HEADER_SIZE: usize = 104;

pub const PDB_FLAG_NEEDS_WIFI: u32 = 0x1;
pub const PDB_FLAG_NEEDS_BT: u32 = 0x2;
pub const PDB_FLAG_STORE_APP: u32 = 0x4;

/// The ABI version that headers must carry, as the header's 16-bit field holds it.
pub const PDB_ABI_VERSION_U16: u16 = 1;

#[allow(inconsistent_fields)]
#[derive(Clone, Copy, Debug, Eq, PartialEq, Structural)]
pub enum PdbError {
    HeaderTooShort { found: usize },
    BadMagic { found: u32 },
    UnsupportedFormatVersion { found: u16 },
    UnsupportedAbiVersion { found: u16 },
    PayloadLengthOverflow,
    PayloadSizeMismatch { expected: usize, found: usize },
    ChecksumMismatch { expected: u32, found: u32 },
}

/// The decoded fixed-size header at the start of every `.pdb` file.
#[derive(Clone, Copy, Debug, Eq, PartialEq)]
pub struct PdbHeader {
    pub magic: u32,
    pub format_version: u16,
    pub abi_version: u16,
    pub entry_offset: u32,
    pub text_size: u32,
    pub data_size: u32,
    pub bss_size: u32,
    pub reloc_count: u32,
    pub flags: u32,
    pub app_name: [u8; 32],
    pub app_version: [u8; 32],
    pub min_heap: u32,
    pub checksum: u32,
}

/// The two parts of a validated payload: the relocation table and the image.
#[derive(Clone, Copy, Debug, Eq, PartialEq)]
pub struct PdbPayloadView<'a> {
    pub reloc_table: &'a [u8],
    pub image: &'a [u8],
}

/// The on-disk layout of the header, field by field.
pub struct PdbRawHeader {
    pub magic: u32,
    pub format_version: u16,
    pub abi_version: u16,
    pub entry_offset: u32,
    pub text_size: u32,
    pub data_size: u32,
    pub bss_size: u32,
    pub reloc_count: u32,
    pub flags: u32,
    pub app_name: [u8; 32],
    pub app_version: [u8; 32],
    pub min_heap: u32,
    pub checksum: u32,
}

// ── Byte-level model ─────────────────────────────────────────────────────────

/// The little-endian `u16` stored at `off`.
pub open spec fn le_u16(b: Seq<u8>, off: int) -> u16 {
    (b[off] as int + 256 * (b[off + 1] as int)) as u16
}

/// The little-endian `u32` stored at `off`.
pub open spec fn le_u32(b: Seq<u8>, off: int) -> u32 {
    (b[off] as int + 256 * (b[off + 1] as int) + 65536 * (b[off + 2] as int) + 16777216 * (
    b[off + 3] as int)) as u32
}

/// What `parse_fixed_header` reads: each field at its fixed offset.
pub open spec fn header_matches_bytes(h: PdbHeader, b: Seq<u8>) -> bool {
    &&& h.magic == le_u32(b, 0x00)
    &&& h.format_version == le_u16(b, 0x04)
    &&& h.abi_version == le_u16(b, 0x06)
    &&& h.entry_offset == le_u32(b, 0x08)
    &&& h.text_size == le_u32(b, 0x0C)
    &&& h.data_size == le_u32(b, 0x10)
    &&& h.bss_size == le_u32(b, 0x14)
    &&& h.reloc_count == le_u32(b, 0x18)
    &&& h.flags == le_u32(b, 0x1C)
    &&& h.app_name@ == b.subrange(0x20, 0x40)
    &&& h.app_version@ == b.subrange(0x40, 0x60)
    &&& h.min_heap == le_u32(b, 0x60)
    &&& h.checksum == le_u32(b, 0x64)
}

/// The identity check: magic, format version and ABI version, in that order.
pub open spec fn spec_header_identity(h: PdbHeader) -> Result<(), PdbError> {
    if h.magic != PDB_MAGIC {
        Err(PdbError::BadMagic { found: h.magic })
    } else if h.format_version != PDB_FORMAT_VERSION {
        Err(PdbError::UnsupportedFormatVersion { found: h.format_version })
    } else if h.abi_version != PDB_ABI_VERSION_U16 {
        Err(PdbError::UnsupportedAbiVersion { found: h.abi_version })
    } else {
        Ok(())
    }
}

/// `(relocation table size, payload size)` in bytes, or `None` where either does
/// not fit in a `u32`.
pub open spec fn spec_payload_layout(h: PdbHeader) -> Option<(int, int)> {
    let reloc = 4 * (h.reloc_count as int);
    let total = reloc + h.text_size as int + h.data_size as int;
    if reloc > u32::MAX || total > u32::MAX {
        None
    } else {
        Some((reloc, total))
    }
}

/// The bytes that follow the fixed header (empty when the file is shorter).
pub open spec fn payload_of(b: Seq<u8>) -> Seq<u8> {
    if b.len() >= PDB_HEADER_SIZE {
        b.subrange(PDB_HEADER_SIZE as int, b.len() as int)
    } else {
        Seq::empty()
    }
}

/// One step of the reflected CRC-32 (polynomial `0xEDB88320`).
pub open spec fn crc_shift(c: u32) -> u32 {
    if c & 1 == 1 {
        (c >> 1) ^ 0xEDB8_8320
    } else {
        c >> 1
    }
}

/// `n` steps of [`crc_shift`].
pub open spec fn crc_shift_n(c: u32, n: nat) -> u32
    decreases n,
{
    if n == 0 {
        c
    } else {
        crc_shift(crc_shift_n(c, (n - 1) as nat))
    }
}

/// The CRC register after the bytes of `s`, starting from all ones.
pub open spec fn crc_register(s: Seq<u8>) -> u32
    decreases s.len(),
{
    if s.len() == 0 {
        0xFFFF_FFFF
    } else {
        crc_shift_n(crc_register(s.drop_last()) ^ (s.last() as u32), 8)
    }
}

/// CRC-32 (IEEE 802.3) of `s`.
pub open spec fn spec_crc32(s: Seq<u8>) -> u32 {
    !crc_register(s)
}

/// Little-endian bytes of `v`, low byte first.
pub open spec fn le_bytes_u32(v: u32) -> Seq<u8> {
    seq![(v & 0xFF) as u8, ((v >> 8) & 0xFF) as u8, ((v >> 16) & 0xFF) as u8, ((v >> 24) & 0xFF) as u8]
}

proof fn lemma_shift8(c: u32)
    ensures
        crc_shift_n(c, 8) == crc_shift(
            crc_shift(crc_shift(crc_shift(crc_shift(crc_shift(crc_shift(crc_shift(c))))))),
        ),
{
    reveal_with_fuel(crc_shift_n, 9);
}

/// Bit-level core of `law_crc_residue`: thirty-two register steps after the
/// complement of the register is fed back, low byte first.
proof fn lemma_residue_steps(
    r: u32,
    x0_0: u32,
    x0_1: u32,
    x0_2: u32,
    x0_3: u32,
    x0_4: u32,
    x0_5: u32,
    x0_6: u32,
    x0_7: u32,
    x0_8: u32,
    x1_0: u32,
    x1_1: u32,
    x1_2: u32,
    x1_3: u32,
    x1_4: u32,
    x1_5: u32,
    x1_6: u32,
    x1_7: u32,
    x1_8: u32,
    x2_0: u32,
    x2_1: u32,
    x2_2: u32,
    x2_3: u32,
    x2_4: u32,
    x2_5: u32,
    x2_6: u32,
    x2_7: u32,
    x2_8: u32,
    x3_0: u32,
    x3_1: u32,
    x3_2: u32,
    x3_3: u32,
    x3_4: u32,
    x3_5: u32,
    x3_6: u32,
    x3_7: u32,
    x3_8: u32,
)
    by (bit_vector)
    requires
        x0_0 == r ^ ((!r) & 0xFF),
        x0_1 == crc_shift(x0_0),
        x0_2 == crc_shift(x0_1),
        x0_3 == crc_shift(x0_2),
        x0_4 == crc_shift(x0_3),
        x0_5 == crc_shift(x0_4),
        x0_6 == crc_shift(x0_5),
        x0_7 == crc_shift(x0_6),
        x0_8 == crc_shift(x0_7),
        x1_0 == x0_8 ^ ((!r >> 8) & 0xFF),
        x1_1 == crc_shift(x1_0),
        x1_2 == crc_shift(x1_1),
        x1_3 == crc_shift(x1_2),
        x1_4 == crc_shift(x1_3),
        x1_5 == crc_shift(x1_4),
        x1_6 == crc_shift(x1_5),
        x1_7 == crc_shift(x1_6),
        x1_8 == crc_shift(x1_7),
        x2_0 == x1_8 ^ ((!r >> 16) & 0xFF),
        x2_1 == crc_shift(x2_0),
        x2_2 == crc_shift(x2_1),
        x2_3 == crc_shift(x2_2),
        x2_4 == crc_shift(x2_3),
        x2_5 == crc_shift(x2_4),
        x2_6 == crc_shift(x2_5),
        x2_7 == crc_shift(x2_6),
        x2_8 == crc_shift(x2_7),
        x3_0 == x2_8 ^ ((!r >> 24) & 0xFF),
        x3_1 == crc_shift(x3_0),
        x3_2 == crc_shift(x3_1),
        x3_3 == crc_shift(x3_2),
        x3_4 == crc_shift(x3_3),
        x3_5 == crc_shift(x3_4),
        x3_6 == crc_shift(x3_5),
        x3_7 == crc_shift(x3_6),
        x3_8 == crc_shift(x3_7),
    ensures
        !x3_8 == 0x2144_DF1Cu32,
{
}

/// The CRC-32 residue: appending to any message its own CRC-32, low byte
/// first, gives a message whose CRC-32 is the fixed value `0x2144DF1C`. This
/// pins the polynomial, the register's start value and the final inversion
/// together.
pub proof fn law_crc_residue(s: Seq<u8>)
    ensures
        spec_crc32(s + le_bytes_u32(spec_crc32(s))) == 0x2144_DF1Cu32,
{
    let r = crc_register(s);
    let t = le_bytes_u32(!r);
    let s1 = s.push(t[0]);
    let s2 = s1.push(t[1]);
    let s3 = s2.push(t[2]);
    let s4 = s3.push(t[3]);
    assert(s + t =~= s4);
    assert(s1.drop_last() =~= s);
    assert(s2.drop_last() =~= s1);
    assert(s3.drop_last() =~= s2);
    assert(s4.drop_last() =~= s3);
    let d = !r;
    assert(((d & 0xFF) as u8) as u32 == d & 0xFF) by (bit_vector);
    assert((((d >> 8) & 0xFF) as u8) as u32 == (d >> 8) & 0xFF) by (bit_vector);
    assert((((d >> 16) & 0xFF) as u8) as u32 == (d >> 16) & 0xFF) by (bit_vector);
    assert((((d >> 24) & 0xFF) as u8) as u32 == (d >> 24) & 0xFF) by (bit_vector);
    let x0_0 = r ^ (t[0] as u32);
    let x0_1 = crc_shift(x0_0);
    let x0_2 = crc_shift(x0_1);
    let x0_3 = crc_shift(x0_2);
    let x0_4 = crc_shift(x0_3);
    let x0_5 = crc_shift(x0_4);
    let x0_6 = crc_shift(x0_5);
    let x0_7 = crc_shift(x0_6);
    let x0_8 = crc_shift(x0_7);
    lemma_shift8(x0_0);
    assert(crc_register(s1) == x0_8);
    let x1_0 = x0_8 ^ (t[1] as u32);
    let x1_1 = crc_shift(x1_0);
    let x1_2 = crc_shift(x1_1);
    let x1_3 = crc_shift(x1_2);
    let x1_4 = crc_shift(x1_3);
    let x1_5 = crc_shift(x1_4);
    let x1_6 = crc_shift(x1_5);
    let x1_7 = crc_shift(x1_6);
    let x1_8 = crc_shift(x1_7);
    lemma_shift8(x1_0);
    assert(crc_register(s2) == x1_8);
    let x2_0 = x1_8 ^ (t[2] as u32);
    let x2_1 = crc_shift(x2_0);
    let x2_2 = crc_shift(x2_1);
    let x2_3 = crc_shift(x2_2);
    let x2_4 = crc_shift(x2_3);
    let x2_5 = crc_shift(x2_4);
    let x2_6 = crc_shift(x2_5);
    let x2_7 = crc_shift(x2_6);
    let x2_8 = crc_shift(x2_7);
    lemma_shift8(x2_0);
    assert(crc_register(s3) == x2_8);
    let x3_0 = x2_8 ^ (t[3] as u32);
    let x3_1 = crc_shift(x3_0);
    let x3_2 = crc_shift(x3_1);
    let x3_3 = crc_shift(x3_2);
    let x3_4 = crc_shift(x3_3);
    let x3_5 = crc_shift(x3_4);
    let x3_6 = crc_shift(x3_5);
    let x3_7 = crc_shift(x3_6);
    let x3_8 = crc_shift(x3_7);
    lemma_shift8(x3_0);
    assert(crc_register(s4) == x3_8);
    lemma_residue_steps(r, x0_0, x0_1, x0_2, x0_3, x0_4, x0_5, x0_6, x0_7, x0_8, x1_0, x1_1, x1_2, x1_3, x1_4, x1_5, x1_6, x1_7, x1_8, x2_0, x2_1, x2_2, x2_3, x2_4, x2_5, x2_6, x2_7, x2_8, x3_0, x3_1, x3_2, x3_3, x3_4, x3_5, x3_6, x3_7, x3_8);
}

/// The payload check: declared layout, then exact length, then checksum.
pub open spec fn spec_validate_payload(h: PdbHeader, b: Seq<u8>) -> Result<(), PdbError> {
    match spec_payload_layout(h) {
        None => Err(PdbError::PayloadLengthOverflow),
        Some((_, expected)) => {
            let payload = payload_of(b);
            if payload.len() != expected {
                Err(
                    PdbError::PayloadSizeMismatch {
                        expected: expected as usize,
                        found: payload.len() as usize,
                    },
                )
            } else if spec_crc32(payload) != h.checksum {
                Err(PdbError::ChecksumMismatch { expected: h.checksum, found: spec_crc32(payload) })
            } else {
                Ok(())
            }
        },
    }
}

// ── Executable code ──────────────────────────────────────────────────────────

fn read_le_u16(bytes: &[u8], off: usize) -> (v: u16)
    requires
        off + 2 <= bytes.len(),
    ensures
        v == le_u16(bytes@, off as int),
{
    let b0 = bytes[off] as u16;
    let b1 = bytes[off + 1] as u16;
    b0 + 256 * b1
}

fn read_le_u32(bytes: &[u8], off: usize) -> (v: u32)
    requires
        off + 4 <= bytes.len(),
    ensures
        v == le_u32(bytes@, off as int),
{
    let b0 = bytes[off] as u32;
    let b1 = bytes[off + 1] as u32;
    let b2 = bytes[off + 2] as u32;
    let b3 = bytes[off + 3] as u32;
    b0 + 256 * b1 + 65536 * b2 + 16777216 * b3
}

fn copy_name_field(bytes: &[u8], off: usize) -> (out: [u8; 32])
    requires
        off + 32 <= bytes.len(),
    ensures
        out@ == bytes@.subrange(off as int, off + 32),
{
    let mut out = [0u8; 32];
    let mut i: usize = 0;
    while i < 32
        invariant
            i <= 32,
            off + 32 <= bytes.len(),
            out@.len() == 32,
            forall|j: int| 0 <= j < i ==> out@[j] == bytes@[off + j],
        decreases 32 - i,
    {
        out[i] = bytes[off + i];
        i += 1;
    }
    assert(out@ =~= bytes@.subrange(off as int, off + 32));
    out
}

/// Decode the fixed 104-byte header at the start of `bytes`.
pub fn parse_fixed_header(bytes: &[u8]) -> (r: Result<PdbHeader, PdbError>)
    ensures
        bytes@.len() < PDB_HEADER_SIZE ==> r == Err::<PdbHeader, PdbError>(
            PdbError::HeaderTooShort { found: bytes@.len() as usize },
        ),
        bytes@.len() >= PDB_HEADER_SIZE ==> (r matches Ok(h) && header_matches_bytes(h, bytes@)),
{
    if bytes.len() < PDB_HEADER_SIZE {
        return Err(PdbError::HeaderTooShort { found: bytes.len() });
    }
    let app_name = copy_name_field(bytes, 0x20);
    let app_version = copy_name_field(bytes, 0x40);

    Ok(
        PdbHeader {
            magic: read_le_u32(bytes, 0x00),
            format_version: read_le_u16(bytes, 0x04),
            abi_version: read_le_u16(bytes, 0x06),
            entry_offset: read_le_u32(bytes, 0x08),
            text_size: read_le_u32(bytes, 0x0C),
            data_size: read_le_u32(bytes, 0x10),
            bss_size: read_le_u32(bytes, 0x14),
            reloc_count: read_le_u32(bytes, 0x18),
            flags: read_le_u32(bytes, 0x1C),
            app_name,
            app_version,
            min_heap: read_le_u32(bytes, 0x60),
            checksum: read_le_u32(bytes, 0x64),
        },
    )
}

/// Check the header's magic, format version and ABI version.
pub fn validate_header_identity(header: &PdbHeader) -> (r: Result<(), PdbError>)
    ensures
        r == spec_header_identity(*header),
{
    if header.magic != PDB_MAGIC {
        return Err(PdbError::BadMagic { found: header.magic });
    }
    if header.format_version != PDB_FORMAT_VERSION {
        return Err(PdbError::UnsupportedFormatVersion { found: header.format_version });
    }
    if header.abi_version != PDB_ABI_VERSION_U16 {
        return Err(PdbError::UnsupportedAbiVersion { found: header.abi_version });
    }
    Ok(())
}

/// Check that the payload after the header has the declared length and checksum.
pub fn validate_payload_integrity(header: &PdbHeader, bytes: &[u8]) -> (r: Result<(), PdbError>)
    ensures
        r == spec_validate_payload(*header, bytes@),
{
    let (_, expected_payload_len) = payload_layout(header)?;

    let payload_len: usize = if bytes.len() >= PDB_HEADER_SIZE {
        bytes.len() - PDB_HEADER_SIZE
    } else {
        0
    };
    if payload_len != expected_payload_len {
        return Err(
            PdbError::PayloadSizeMismatch { expected: expected_payload_len, found: payload_len },
        );
    }
    let payload = if bytes.len() >= PDB_HEADER_SIZE {
        slice_subrange(bytes, PDB_HEADER_SIZE, bytes.len())
    } else {
        slice_subrange(bytes, 0, 0)
    };
    assert(payload@ =~= payload_of(bytes@));
    let found = crc32(payload);
    if found != header.checksum {
        return Err(PdbError::ChecksumMismatch { expected: header.checksum, found });
    }
    Ok(())
}

/// Validate the payload and split it into relocation table and image.
pub fn payload_views<'a>(header: &PdbHeader, bytes: &'a [u8]) -> (r: Result<
    PdbPayloadView<'a>,
    PdbError,
>)
    requires
        bytes@.len() < PDB_HEADER_SIZE ==> spec_validate_payload(*header, bytes@) is Err,
    ensures
        spec_validate_payload(*header, bytes@) is Err ==> r == Err::<PdbPayloadView<'a>, PdbError>(
            spec_validate_payload(*header, bytes@)->Err_0,
        ),
        spec_validate_payload(*header, bytes@) is Ok ==> (r matches Ok(v) && ({
            let (reloc, total) = spec_payload_layout(*header)->Some_0;
            &&& v.reloc_table@ == payload_of(bytes@).subrange(0, reloc)
            &&& v.image@ == payload_of(bytes@).subrange(reloc, total)
        })),
{
    validate_payload_integrity(header, bytes)?;

    let (reloc_size, total) = payload_layout(header)?;
    assert(bytes@.len() >= PDB_HEADER_SIZE);
    assert(payload_of(bytes@).len() == total);
    assert(reloc_size <= total);
    assert(total == bytes.len() - PDB_HEADER_SIZE);
    let reloc_table = slice_subrange(bytes, PDB_HEADER_SIZE, PDB_HEADER_SIZE + reloc_size);
    let image = slice_subrange(bytes, PDB_HEADER_SIZE + reloc_size, bytes.len());
    assert(reloc_table@ =~= payload_of(bytes@).subrange(0, reloc_size as int));
    assert(image@ =~= payload_of(bytes@).subrange(reloc_size as int, total as int));
    Ok(PdbPayloadView { reloc_table, image })
}

fn payload_layout(header: &PdbHeader) -> (r: Result<(usize, usize), PdbError>)
    ensures
        match spec_payload_layout(*header) {
            None => r == Err::<(usize, usize), PdbError>(PdbError::PayloadLengthOverflow),
            Some((reloc, total)) => r == Ok::<(usize, usize), PdbError>(
                (reloc as usize, total as usize),
            ),
        },
{
    let reloc_size = match header.reloc_count.checked_mul(4) {
        Some(v) => v,
        None => return Err(PdbError::PayloadLengthOverflow),
    };
    let with_text = match reloc_size.checked_add(header.text_size) {
        Some(v) => v,
        None => return Err(PdbError::PayloadLengthOverflow),
    };
    let total = match with_text.checked_add(header.data_size) {
        Some(v) => v,
        None => return Err(PdbError::PayloadLengthOverflow),
    };
    Ok((reloc_size as usize, total as usize))
}

fn crc32(bytes: &[u8]) -> (crc: u32)
    ensures
        crc == spec_crc32(bytes@),
{
    let mut crc: u32 = 0xFFFF_FFFF;
    let mut i: usize = 0;
    assert(bytes@.subrange(0, 0) =~= Seq::<u8>::empty());
    while i < bytes.len()
        invariant
            i <= bytes@.len(),
            crc == crc_register(bytes@.subrange(0, i as int)),
        decreases bytes@.len() - i,
    {
        crc = crc ^ (bytes[i] as u32);
        let ghost start = crc;
        let mut k: u32 = 0;
        while k < 8
            invariant
                k <= 8,
                crc == crc_shift_n(start, k as nat),
            decreases 8 - k,
        {
            crc = if crc & 1 == 1 {
                (crc >> 1) ^ 0xEDB8_8320
            } else {
                crc >> 1
            };
            k += 1;
        }
        assert(bytes@.subrange(0, i + 1).drop_last() =~= bytes@.subrange(0, i as int));
        i += 1;
    }
    assert(bytes@.subrange(0, bytes@.len() as int) =~= bytes@);
    !crc
}

} // verus!
