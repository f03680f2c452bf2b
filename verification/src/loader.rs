use vstd::prelude::*;

use crate::pdb::{
    header_matches_bytes, le_u32, parse_fixed_header, payload_of, payload_views,
    spec_header_identity, spec_payload_layout, spec_validate_payload, validate_header_identity,
    PdbError, PdbHeader, PDB_HEADER_SIZE,
};

verus! {

#[allow(inconsistent_fields)]
#[derive(Clone, Copy, Debug, Eq, PartialEq, Structural)]
pub enum LoaderError {
    RamBudgetOverflow,
    AppRegionTooSmall { required: u32, available: u32 },
    BssOutOfBounds { start: usize, end: usize, region_len: usize },
    RelocationOutOfBounds { offset: usize, image_len: usize },
    EntryOffsetOutOfBounds { entry_offset: u32, image_len: usize },
}

#[derive(Clone, Copy, Debug, Eq, PartialEq, Structural)]
pub enum PrepareImageError {
    Pdb(PdbError),
    Loader(LoaderError),
}

/// What `prepare_image` reports about an image it laid out.
#[derive(Clone, Copy, Debug, Eq, PartialEq, Structural)]
pub struct PreparedImage {
    pub entry_offset: u32,
    pub image_size: u32,
    pub total_ram: u32,
    pub min_heap: u32,
}

impl From<PdbError> for PrepareImageError {
    fn from(value: PdbError) -> (r: Self) {
        PrepareImageError::Pdb(value)
    }
}

impl vstd::std_specs::convert::FromSpecImpl<PdbError> for PrepareImageError {
    open spec fn obeys_from_spec() -> bool {
        true
    }

    open spec fn from_spec(v: PdbError) -> Self {
        PrepareImageError::Pdb(v)
    }
}

impl From<LoaderError> for PrepareImageError {
    fn from(value: LoaderError) -> (r: Self) {
        PrepareImageError::Loader(value)
    }
}

impl vstd::std_specs::convert::FromSpecImpl<LoaderError> for PrepareImageError {
    open spec fn obeys_from_spec() -> bool {
        true
    }

    open spec fn from_spec(v: LoaderError) -> Self {
        PrepareImageError::Loader(v)
    }
}

/// Error returned when an image cannot be launched.
#[derive(Clone, Copy, Debug, Eq, PartialEq, Structural)]
pub enum LoadAndRunError {
    PrepareImage(PrepareImageError),
}

impl From<PrepareImageError> for LoadAndRunError {
    fn from(e: PrepareImageError) -> (r: Self) {
        LoadAndRunError::PrepareImage(e)
    }
}

impl vstd::std_specs::convert::FromSpecImpl<PrepareImageError> for LoadAndRunError {
    open spec fn obeys_from_spec() -> bool {
        true
    }

    open spec fn from_spec(v: PrepareImageError) -> Self {
        LoadAndRunError::PrepareImage(v)
    }
}

// ── Model ────────────────────────────────────────────────────────────────────

/// RAM an image needs: text, data, bss and heap, or `None` when that overflows `u32`.
pub open spec fn spec_ram_budget(h: PdbHeader) -> Option<u32> {
    let total = h.text_size as int + h.data_size as int + h.bss_size as int + h.min_heap as int;
    if total > u32::MAX {
        None
    } else {
        Some(total as u32)
    }
}

/// The end of the bss range as `zero_bss_tail` computes it (saturating).
pub open spec fn bss_end(initialized_size: u32, bss_size: u32) -> int {
    let end = initialized_size as int + bss_size as int;
    if end > usize::MAX {
        usize::MAX as int
    } else {
        end
    }
}

/// The little-endian encoding of `v`.
pub open spec fn le_bytes_u32(v: u32) -> Seq<u8> {
    seq![
        (v % 256) as u8,
        ((v / 256) % 256) as u8,
        ((v / 65536) % 256) as u8,
        (v / 16777216) as u8,
    ]
}

/// The image offset named by relocation entry `k`.
pub open spec fn reloc_offset(table: Seq<u8>, k: int) -> int {
    le_u32(table, 4 * k) as int
}

/// Number of whole entries in a relocation table (a trailing partial entry is ignored).
pub open spec fn reloc_entries(table: Seq<u8>) -> int {
    table.len() as int / 4
}

/// Add `load` (modulo 2^32) to the little-endian word at `off`.
pub open spec fn relocate_word(img: Seq<u8>, off: int, load: u32) -> Seq<u8> {
    let sum = le_u32(img, off) as int + load as int;
    let v: u32 = if sum > u32::MAX {
        (sum - 0x1_0000_0000) as u32
    } else {
        sum as u32
    };
    img.subrange(0, off) + le_bytes_u32(v) + img.subrange(off + 4, img.len() as int)
}

/// Apply the relocation entries from `k` on, in table order: the resulting image and,
/// where an entry points outside the image, that entry's offset (processing stops there).
pub open spec fn run_relocs(img: Seq<u8>, table: Seq<u8>, k: int, load: u32) -> (Seq<u8>, Option<int>)
    decreases reloc_entries(table) - k,
{
    if k < 0 || k >= reloc_entries(table) {
        (img, None)
    } else if reloc_offset(table, k) + 4 > img.len() {
        (img, Some(reloc_offset(table, k)))
    } else {
        run_relocs(relocate_word(img, reloc_offset(table, k), load), table, k + 1, load)
    }
}

/// The checks of `prepare_image`, in order, and the report on success.
pub open spec fn prepare_plan(h: PdbHeader, b: Seq<u8>, region_len: int) -> Result<
    PreparedImage,
    PrepareImageError,
> {
    if b.len() < PDB_HEADER_SIZE {
        Err(PrepareImageError::Pdb(PdbError::HeaderTooShort { found: b.len() as usize }))
    } else if spec_header_identity(h) is Err {
        Err(PrepareImageError::Pdb(spec_header_identity(h)->Err_0))
    } else if spec_validate_payload(h, b) is Err {
        Err(PrepareImageError::Pdb(spec_validate_payload(h, b)->Err_0))
    } else if spec_ram_budget(h) is None {
        Err(PrepareImageError::Loader(LoaderError::RamBudgetOverflow))
    } else {
        let total = spec_ram_budget(h)->Some_0;
        let available: u32 = if region_len > u32::MAX {
            u32::MAX
        } else {
            region_len as u32
        };
        if total > available {
            Err(
                PrepareImageError::Loader(
                    LoaderError::AppRegionTooSmall { required: total, available },
                ),
            )
        } else if h.entry_offset >= h.text_size {
            Err(
                PrepareImageError::Loader(
                    LoaderError::EntryOffsetOutOfBounds {
                        entry_offset: h.entry_offset,
                        image_len: h.text_size as usize,
                    },
                ),
            )
        } else {
            Ok(
                PreparedImage {
                    entry_offset: h.entry_offset,
                    image_size: (h.text_size + h.data_size) as u32,
                    total_ram: total,
                    min_heap: h.min_heap,
                },
            )
        }
    }
}

/// The relocation table inside a `.pdb` file.
pub open spec fn reloc_table_of(h: PdbHeader, b: Seq<u8>) -> Seq<u8> {
    payload_of(b).subrange(0, spec_payload_layout(h)->Some_0.0)
}

/// The image (text followed by data) inside a `.pdb` file.
pub open spec fn image_of(h: PdbHeader, b: Seq<u8>) -> Seq<u8> {
    payload_of(b).subrange(spec_payload_layout(h)->Some_0.0, spec_payload_layout(h)->Some_0.1)
}

/// The region after the image is copied in and bss is zeroed, before relocation.
pub open spec fn laid_out_region(image: Seq<u8>, bss_size: int, old: Seq<u8>) -> Seq<u8> {
    image + Seq::new(bss_size as nat, |i: int| 0u8) + old.subrange(
        image.len() + bss_size,
        old.len() as int,
    )
}

// ── Executable code ──────────────────────────────────────────────────────────

/// RAM an image needs: `text + data + bss + min_heap`.
pub fn ram_budget_bytes(header: &PdbHeader) -> (r: Result<u32, LoaderError>)
    ensures
        match spec_ram_budget(*header) {
            Some(t) => r == Ok::<u32, LoaderError>(t),
            None => r == Err::<u32, LoaderError>(LoaderError::RamBudgetOverflow),
        },
{
    let a = match header.text_size.checked_add(header.data_size) {
        Some(v) => v,
        None => return Err(LoaderError::RamBudgetOverflow),
    };
    let b = match a.checked_add(header.bss_size) {
        Some(v) => v,
        None => return Err(LoaderError::RamBudgetOverflow),
    };
    match b.checked_add(header.min_heap) {
        Some(v) => Ok(v),
        None => Err(LoaderError::RamBudgetOverflow),
    }
}

/// Check that `required` bytes fit in `available`.
pub fn ensure_region_fit(required: u32, available: u32) -> (r: Result<(), LoaderError>)
    ensures
        required > available ==> r == Err::<(), LoaderError>(
            LoaderError::AppRegionTooSmall { required, available },
        ),
        required <= available ==> r is Ok,
{
    if required > available {
        return Err(LoaderError::AppRegionTooSmall { required, available });
    }
    Ok(())
}

/// Zero `bss_size` bytes of `region` starting at `initialized_size`.
pub fn zero_bss_tail(region: &mut [u8], initialized_size: u32, bss_size: u32) -> (r: Result<
    (),
    LoaderError,
>)
    ensures
        bss_end(initialized_size, bss_size) > old(region)@.len() ==> {
            &&& r == Err::<(), LoaderError>(
                LoaderError::BssOutOfBounds {
                    start: initialized_size as usize,
                    end: bss_end(initialized_size, bss_size) as usize,
                    region_len: old(region)@.len() as usize,
                },
            )
            &&& final(region)@ == old(region)@
        },
        bss_end(initialized_size, bss_size) <= old(region)@.len() ==> {
            &&& r is Ok
            &&& final(region)@.len() == old(region)@.len()
            &&& forall|i: int|
                0 <= i < final(region)@.len() ==> #[trigger] final(region)@[i] == if initialized_size
                    <= i < initialized_size + bss_size {
                    0u8
                } else {
                    old(region)@[i]
                }
        },
{
    let start = initialized_size as usize;
    let end = start.saturating_add(bss_size as usize);

    if end > region.len() {
        return Err(LoaderError::BssOutOfBounds { start, end, region_len: region.len() });
    }
    let mut i = start;
    while i < end
        invariant
            start <= i <= end <= region@.len(),
            region@.len() == old(region)@.len(),
            start == initialized_size,
            end == bss_end(initialized_size, bss_size),
            forall|j: int|
                0 <= j < region@.len() ==> #[trigger] region@[j] == if start <= j < i {
                    0u8
                } else {
                    old(region)@[j]
                },
        decreases end - i,
    {
        region[i] = 0;
        i += 1;
    }
    Ok(())
}

fn read_word(bytes: &[u8], off: usize) -> (v: u32)
    requires
        off + 4 <= bytes.len(),
    ensures
        v == le_u32(bytes@, off as int),
{
    let b0 = bytes[off] as u32;
    let b1 = bytes[off + 1] as u32;
    let b2 = bytes[off + 2] as u32;
    let b3 = bytes[off + 3] as u32;
    b0 + 256 * b1 + 65536 * b2 + 16777216 * b3
}

fn write_word(region: &mut [u8], off: usize, v: u32)
    requires
        off + 4 <= old(region)@.len(),
    ensures
        final(region)@ == old(region)@.subrange(0, off as int) + le_bytes_u32(v) + old(
            region,
        )@.subrange(off + 4, old(region)@.len() as int),
{
    region[off] = (v % 256) as u8;
    region[off + 1] = ((v / 256) % 256) as u8;
    region[off + 2] = ((v / 65536) % 256) as u8;
    region[off + 3] = (v / 16777216) as u8;
    assert(region@ =~= old(region)@.subrange(0, off as int) + le_bytes_u32(v) + old(
        region,
    )@.subrange(off + 4, old(region)@.len() as int));
}

proof fn lemma_word_in_prefix(img: Seq<u8>, tail: Seq<u8>, off: int, load: u32)
    requires
        0 <= off,
        off + 4 <= img.len(),
    ensures
        le_u32(img + tail, off) == le_u32(img, off),
        ({
            let whole = img + tail;
            let sum = le_u32(img, off) as int + load as int;
            let v: u32 = if sum > u32::MAX {
                (sum - 0x1_0000_0000) as u32
            } else {
                sum as u32
            };
            whole.subrange(0, off) + le_bytes_u32(v) + whole.subrange(off + 4, whole.len() as int)
                == relocate_word(img, off, load) + tail
        }),
{
    let whole = img + tail;
    let sum = le_u32(img, off) as int + load as int;
    let v: u32 = if sum > u32::MAX {
        (sum - 0x1_0000_0000) as u32
    } else {
        sum as u32
    };
    assert(whole.subrange(0, off) + le_bytes_u32(v) + whole.subrange(off + 4, whole.len() as int)
        =~= relocate_word(img, off, load) + tail);
}

/// Relocate the first `image_len` bytes of `region`, leaving the rest untouched.
fn relocate_prefix(region: &mut [u8], image_len: usize, reloc_table: &[u8], load_address: u32) -> (r:
    Result<(), LoaderError>)
    requires
        image_len <= old(region)@.len(),
    ensures
        ({
            let (img, bad) = run_relocs(
                old(region)@.subrange(0, image_len as int),
                reloc_table@,
                0,
                load_address,
            );
            &&& final(region)@ == img + old(region)@.subrange(
                image_len as int,
                old(region)@.len() as int,
            )
            &&& bad is None ==> r is Ok
            &&& bad is Some ==> r == Err::<(), LoaderError>(
                LoaderError::RelocationOutOfBounds {
                    offset: bad->Some_0 as usize,
                    image_len,
                },
            )
        }),
{
    let ghost old_img = old(region)@.subrange(0, image_len as int);
    let ghost tail = old(region)@.subrange(image_len as int, old(region)@.len() as int);
    let ghost mut img = old_img;
    let n = reloc_table.len() / 4;
    let mut i: usize = 0;
    assert(region@ =~= old_img + tail);
    while i < n
        invariant
            i <= n,
            n == reloc_entries(reloc_table@),
            n == reloc_table.len() / 4,
            image_len <= old(region)@.len(),
            old_img == old(region)@.subrange(0, image_len as int),
            tail == old(region)@.subrange(image_len as int, old(region)@.len() as int),
            img.len() == image_len,
            region@ == img + tail,
            run_relocs(old_img, reloc_table@, 0, load_address) == run_relocs(
                img,
                reloc_table@,
                i as int,
                load_address,
            ),
        decreases n - i,
    {
        assert(4 * i + 4 <= reloc_table.len());
        let offset = read_word(reloc_table, 4 * i) as usize;
        let end: u64 = offset as u64 + 4;
        assert(reloc_offset(reloc_table@, i as int) == offset);
        if end > image_len as u64 {
            return Err(LoaderError::RelocationOutOfBounds { offset, image_len });
        }
        proof {
            lemma_word_in_prefix(img, tail, offset as int, load_address);
        }
        let value = read_word(region, offset);
        let relocated = value.wrapping_add(load_address);
        write_word(region, offset, relocated);
        assert(region@ == relocate_word(img, offset as int, load_address) + tail);
        assert(run_relocs(img, reloc_table@, i as int, load_address) == run_relocs(
            relocate_word(img, offset as int, load_address),
            reloc_table@,
            i + 1,
            load_address,
        ));
        proof {
            img = relocate_word(img, offset as int, load_address);
        }
        i += 1;
    }
    Ok(())
}

/// Add `load_address` to every 32-bit little-endian word of `image` that the
/// relocation table names, in table order.
pub fn apply_relocations(image: &mut [u8], reloc_table: &[u8], load_address: u32) -> (r: Result<
    (),
    LoaderError,
>)
    ensures
        ({
            let (img, bad) = run_relocs(old(image)@, reloc_table@, 0, load_address);
            &&& final(image)@ == img
            &&& bad is None ==> r is Ok
            &&& bad is Some ==> r == Err::<(), LoaderError>(
                LoaderError::RelocationOutOfBounds {
                    offset: bad->Some_0 as usize,
                    image_len: old(image)@.len() as usize,
                },
            )
        }),
{
    let len = image.len();
    assert(old(image)@.subrange(0, len as int) =~= old(image)@);
    let r = relocate_prefix(image, len, reloc_table, load_address);
    assert(old(image)@.subrange(len as int, len as int) =~= Seq::<u8>::empty());
    assert(image@ =~= run_relocs(old(image)@, reloc_table@, 0, load_address).0);
    r
}

/// Validate a `.pdb` file, copy its image into `region`, zero its bss and
/// relocate it for `load_address`.
pub fn prepare_image(bytes: &[u8], region: &mut [u8], load_address: u32) -> (r: Result<
    PreparedImage,
    PrepareImageError,
>)
    ensures
        bytes@.len() < PDB_HEADER_SIZE ==> r == Err::<PreparedImage, PrepareImageError>(
            PrepareImageError::Pdb(PdbError::HeaderTooShort { found: bytes@.len() as usize }),
        ) && final(region)@ == old(region)@,
        forall|h: PdbHeader|
            #![trigger header_matches_bytes(h, bytes@)]
            header_matches_bytes(h, bytes@) ==> match prepare_plan(h, bytes@, old(region)@.len() as int) {
                Err(e) => r == Err::<PreparedImage, PrepareImageError>(e) && final(region)@ == old(
                    region,
                )@,
                Ok(p) => {
                    let image = image_of(h, bytes@);
                    let laid = laid_out_region(image, h.bss_size as int, old(region)@);
                    let (img, bad) = run_relocs(
                        laid.subrange(0, image.len() as int),
                        reloc_table_of(h, bytes@),
                        0,
                        load_address,
                    );
                    &&& final(region)@ == img + laid.subrange(image.len() as int, laid.len() as int)
                    &&& bad is None ==> r == Ok::<PreparedImage, PrepareImageError>(p)
                    &&& bad is Some ==> r == Err::<PreparedImage, PrepareImageError>(
                        PrepareImageError::Loader(
                            LoaderError::RelocationOutOfBounds {
                                offset: bad->Some_0 as usize,
                                image_len: image.len() as usize,
                            },
                        ),
                    )
                },
            },
{
    let header = match parse_fixed_header(bytes) {
        Ok(h) => h,
        Err(e) => return Err(PrepareImageError::Pdb(e)),
    };
    assert forall|h: PdbHeader| header_matches_bytes(h, bytes@) implies prepare_plan(
        h,
        bytes@,
        old(region)@.len() as int,
    ) == prepare_plan(header, bytes@, old(region)@.len() as int) && image_of(h, bytes@) == image_of(
        header,
        bytes@,
    ) && reloc_table_of(h, bytes@) == reloc_table_of(header, bytes@) && h.bss_size
        == header.bss_size by {}
    if let Err(e) = validate_header_identity(&header) {
        return Err(PrepareImageError::Pdb(e));
    }
    let views = match payload_views(&header, bytes) {
        Ok(v) => v,
        Err(e) => return Err(PrepareImageError::Pdb(e)),
    };
    let total_ram = match ram_budget_bytes(&header) {
        Ok(t) => t,
        Err(e) => return Err(PrepareImageError::Loader(e)),
    };
    let available: u32 = if region.len() > 0xFFFF_FFFFusize {
        0xFFFF_FFFF
    } else {
        region.len() as u32
    };
    if let Err(e) = ensure_region_fit(total_ram, available) {
        return Err(PrepareImageError::Loader(e));
    }
    let image_size = views.image.len();
    if header.entry_offset >= header.text_size {
        return Err(
            PrepareImageError::Loader(
                LoaderError::EntryOffsetOutOfBounds {
                    entry_offset: header.entry_offset,
                    image_len: header.text_size as usize,
                },
            ),
        );
    }
    assert(image_size == header.text_size + header.data_size);

    let ghost before = region@;
    let mut i: usize = 0;
    while i < image_size
        invariant
            i <= image_size,
            image_size == views.image@.len(),
            image_size <= region@.len(),
            region@.len() == before.len(),
            forall|j: int|
                0 <= j < region@.len() ==> #[trigger] region@[j] == if j < i {
                    views.image@[j]
                } else {
                    before[j]
                },
        decreases image_size - i,
    {
        region[i] = views.image[i];
        i += 1;
    }
    let ghost copied = region@;
    let z = zero_bss_tail(region, image_size as u32, header.bss_size);
    assert(z is Ok);
    let ghost laid = laid_out_region(views.image@, header.bss_size as int, before);
    assert(region@ =~= laid);
    let rel = relocate_prefix(region, image_size, views.reloc_table, load_address);
    let prepared = PreparedImage {
        entry_offset: header.entry_offset,
        image_size: image_size as u32,
        total_ram,
        min_heap: header.min_heap,
    };
    match rel {
        Ok(()) => Ok(prepared),
        Err(e) => Err(PrepareImageError::Loader(e)),
    }
}

} // verus!
