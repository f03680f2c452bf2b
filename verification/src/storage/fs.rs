use embedded_sdmmc::filesystem::ToShortFileName;
use vstd::prelude::*;

use crate::storage::StorageError;

verus! {

/// Seek origin, mirroring `std::io::SeekFrom`.
#[derive(Debug, Clone, Copy, PartialEq, Eq, Structural)]
pub enum SeekFrom {
    /// Offset from the beginning of the file.
    Start(u32),
    /// Offset from the current position (may be negative).
    Current(i32),
    /// Offset backwards from the end of the file.
    ///
    /// Unlike `std::io::SeekFrom::End` (which takes `i64` and can seek past
    /// EOF), this variant is unsigned and only supports seeking backwards.
    End(u32),
}

/// Whether a directory entry is a regular file or a subdirectory.
#[derive(Debug, Clone, Copy, PartialEq, Eq, Structural)]
pub enum EntryType {
    File,
    Directory,
}

/// Metadata returned by a stat of a root-directory entry.
#[derive(Debug, Clone, Copy, PartialEq, Eq, Structural)]
pub struct PdStat {
    pub entry_type: EntryType,
    /// Size of the file in bytes (0 for directories).
    pub size: u32,
}

/// A time source that always reports the epoch (all zeros), for when no RTC
/// is present or timestamps are not required.
pub struct NoopTimeSource;

/// Opaque index into the open-file slot table.
///
/// The slot index is private; callers treat this as an opaque token.
#[derive(Debug, Clone, Copy, PartialEq, Eq, Structural)]
pub struct FileHandle(pub(crate) u8);

/// Opaque index into the open-directory slot table.
///
/// The slot index is private; callers treat this as an opaque token.
#[derive(Debug, Clone, Copy, PartialEq, Eq, Structural)]
pub struct DirHandle(pub(crate) u8);

impl FileHandle {
    pub closed spec fn slot(self) -> int {
        self.0 as int
    }

    /// The handle with raw value `raw`, when `raw` fits a slot index byte.
    pub fn from_raw(raw: i32) -> (r: Option<Self>)
        ensures
            (raw < 0 || raw > 255) ==> r is None,
            0 <= raw <= 255 ==> (r matches Some(h) && h.slot() == raw),
    {
        if raw < 0 || raw > 255 {
            return None;
        }
        Some(FileHandle(raw as u8))
    }

    pub fn to_raw(self) -> (r: i32)
        ensures
            r == self.slot(),
            0 <= r <= 255,
    {
        self.0 as i32
    }
}

impl DirHandle {
    pub closed spec fn slot(self) -> int {
        self.0 as int
    }

    /// The handle with raw value `raw`, when `raw` fits a slot index byte.
    pub fn from_raw(raw: i32) -> (r: Option<Self>)
        ensures
            (raw < 0 || raw > 255) ==> r is None,
            0 <= raw <= 255 ==> (r matches Some(h) && h.slot() == raw),
    {
        if raw < 0 || raw > 255 {
            return None;
        }
        Some(DirHandle(raw as u8))
    }

    pub fn to_raw(self) -> (r: i32)
        ensures
            r == self.slot(),
            0 <= r <= 255,
    {
        self.0 as i32
    }
}

/// A file handle is its slot: turning it into a raw integer and back gives
/// the same handle.
pub proof fn law_file_handle_round_trip(h: FileHandle, g: FileHandle)
    ensures
        0 <= h.slot() <= 255,
        g.slot() == h.slot() ==> g == h,
{
}

/// A directory handle is its slot: turning it into a raw integer and back
/// gives the same handle.
pub proof fn law_dir_handle_round_trip(h: DirHandle, g: DirHandle)
    ensures
        0 <= h.slot() <= 255,
        g.slot() == h.slot() ==> g == h,
{
}

/// A single directory entry returned when reading a directory.
#[derive(Debug, Clone, Copy, PartialEq, Eq)]
pub struct PdDirEntry {
    /// Raw 8.3 name: bytes 0–7 = base name, bytes 8–10 = extension (space-padded).
    pub name: [u8; 11],
    pub entry_type: EntryType,
    pub size: u32,
}

/// Simultaneously open files.
pub const MAX_OPEN_FILES: usize = 8;
/// Simultaneously open user directories.
pub const MAX_OPEN_DIRS: usize = 4;

// ── Slot tables ──────────────────────────────────────────────────────────────

/// The index of the first empty slot, or the length when every slot is taken.
pub open spec fn first_empty<T>(s: Seq<Option<T>>, k: int) -> int
    decreases s.len() - k,
{
    if k < 0 || k >= s.len() {
        s.len() as int
    } else if s[k] is None {
        k
    } else {
        first_empty(s, k + 1)
    }
}

proof fn lemma_first_empty<T>(s: Seq<Option<T>>, k: int)
    requires
        0 <= k <= s.len(),
    ensures
        k <= first_empty(s, k) <= s.len(),
        first_empty(s, k) < s.len() ==> s[first_empty(s, k)] is None,
        forall|j: int| k <= j < first_empty(s, k) ==> #[trigger] s[j] is Some,
    decreases s.len() - k,
{
    if k < s.len() && s[k] is Some {
        lemma_first_empty(s, k + 1);
    }
}

proof fn lemma_first_empty_at<T>(s: Seq<Option<T>>, k: int, i: int)
    requires
        0 <= k <= i <= s.len(),
        forall|j: int| k <= j < i ==> #[trigger] s[j] is Some,
        i < s.len() ==> s[i] is None,
    ensures
        first_empty(s, k) == i,
    decreases i - k,
{
    if k < i {
        lemma_first_empty_at(s, k + 1, i);
    }
}

/// The open-file table: which file each handle slot holds.
pub struct FileSlots<H> {
    slots: [Option<H>; 8],
}

impl<H: Copy> FileSlots<H> {
    pub closed spec fn view(&self) -> Seq<Option<H>> {
        self.slots@
    }

    pub fn new() -> (t: Self)
        ensures
            t.view() == Seq::new(8, |i: int| None::<H>),
    {
        let t = FileSlots { slots: [None, None, None, None, None, None, None, None] };
        assert(t.view() =~= Seq::new(8, |i: int| None::<H>));
        t
    }

    /// Put `file` in the lowest free slot and hand out its handle; `None` when
    /// all slots are taken.
    pub fn claim(&mut self, file: H) -> (r: Option<FileHandle>)
        ensures
            old(self).view().len() == 8,
            first_empty(old(self).view(), 0) < 8 ==> {
                &&& r matches Some(h) && h.slot() == first_empty(old(self).view(), 0)
                &&& final(self).view() == old(self).view().update(
                    first_empty(old(self).view(), 0),
                    Some(file),
                )
            },
            first_empty(old(self).view(), 0) >= 8 ==> r is None && final(self).view() == old(
                self,
            ).view(),
    {
        proof {
            lemma_first_empty(self.slots@, 0);
        }
        let mut i: usize = 0;
        while i < MAX_OPEN_FILES
            invariant
                i <= 8,
                self.slots == old(self).slots,
                forall|j: int| 0 <= j < i ==> #[trigger] self.slots@[j] is Some,
            decreases 8 - i,
        {
            if self.slots[i].is_none() {
                proof {
                    lemma_first_empty_at(self.slots@, 0, i as int);
                }
                self.slots[i] = Some(file);
                return Some(FileHandle(i as u8));
            }
            i += 1;
        }
        proof {
            lemma_first_empty_at(self.slots@, 0, 8);
        }
        None
    }

    /// The file in `handle`'s slot, if it is open.
    pub fn get(&self, handle: FileHandle) -> (r: Option<H>)
        ensures
            handle.slot() < 8 ==> r == self.view()[handle.slot()],
            handle.slot() >= 8 ==> r is None,
    {
        let i = handle.0 as usize;
        if i < MAX_OPEN_FILES {
            self.slots[i]
        } else {
            None
        }
    }

    /// Free `handle`'s slot, handing back the file it held.
    pub fn release(&mut self, handle: FileHandle) -> (r: Option<H>)
        ensures
            handle.slot() < 8 ==> r == old(self).view()[handle.slot()] && final(self).view() == old(
                self,
            ).view().update(handle.slot(), None),
            handle.slot() >= 8 ==> r is None && final(self).view() == old(self).view(),
    {
        let i = handle.0 as usize;
        if i < MAX_OPEN_FILES {
            let r = self.slots[i];
            self.slots[i] = None;
            r
        } else {
            None
        }
    }
}

/// The open-directory table: each slot holds a directory and how many of its
/// entries have been read.
pub struct DirSlots<H> {
    slots: [Option<(H, usize)>; 4],
}

impl<H: Copy> DirSlots<H> {
    pub closed spec fn view(&self) -> Seq<Option<(H, usize)>> {
        self.slots@
    }

    pub fn new() -> (t: Self)
        ensures
            t.view() == Seq::new(4, |i: int| None::<(H, usize)>),
    {
        let t = DirSlots { slots: [None, None, None, None] };
        assert(t.view() =~= Seq::new(4, |i: int| None::<(H, usize)>));
        t
    }

    /// Put `dir` in the lowest free slot with nothing read yet; `None` when
    /// all slots are taken.
    pub fn claim(&mut self, dir: H) -> (r: Option<DirHandle>)
        ensures
            old(self).view().len() == 4,
            first_empty(old(self).view(), 0) < 4 ==> {
                &&& r matches Some(h) && h.slot() == first_empty(old(self).view(), 0)
                &&& final(self).view() == old(self).view().update(
                    first_empty(old(self).view(), 0),
                    Some((dir, 0usize)),
                )
            },
            first_empty(old(self).view(), 0) >= 4 ==> r is None && final(self).view() == old(
                self,
            ).view(),
    {
        proof {
            lemma_first_empty(self.slots@, 0);
        }
        let mut i: usize = 0;
        while i < MAX_OPEN_DIRS
            invariant
                i <= 4,
                self.slots == old(self).slots,
                forall|j: int| 0 <= j < i ==> #[trigger] self.slots@[j] is Some,
            decreases 4 - i,
        {
            if self.slots[i].is_none() {
                proof {
                    lemma_first_empty_at(self.slots@, 0, i as int);
                }
                self.slots[i] = Some((dir, 0));
                return Some(DirHandle(i as u8));
            }
            i += 1;
        }
        proof {
            lemma_first_empty_at(self.slots@, 0, 4);
        }
        None
    }

    /// The directory in `handle`'s slot and its read position, if it is open.
    pub fn get(&self, handle: DirHandle) -> (r: Option<(H, usize)>)
        ensures
            handle.slot() < 4 ==> r == self.view()[handle.slot()],
            handle.slot() >= 4 ==> r is None,
    {
        let i = handle.0 as usize;
        if i < MAX_OPEN_DIRS {
            self.slots[i]
        } else {
            None
        }
    }

    /// Count one more entry as read for `handle`'s directory.
    pub fn advance(&mut self, handle: DirHandle)
        requires
            (handle.slot() < 4 && old(self).view()[handle.slot()] is Some) ==> old(
                self,
            ).view()[handle.slot()]->Some_0.1 < usize::MAX,
        ensures
            (handle.slot() < 4 && old(self).view()[handle.slot()] is Some) ==> final(self).view()
                == old(self).view().update(
                handle.slot(),
                Some(
                    (
                        old(self).view()[handle.slot()]->Some_0.0,
                        (old(self).view()[handle.slot()]->Some_0.1 + 1) as usize,
                    ),
                ),
            ),
            !(handle.slot() < 4 && old(self).view()[handle.slot()] is Some) ==> final(self).view()
                == old(self).view(),
    {
        let i = handle.0 as usize;
        if i < MAX_OPEN_DIRS {
            if let Some((dir, read)) = self.slots[i] {
                self.slots[i] = Some((dir, read + 1));
            }
        }
    }

    /// Free `handle`'s slot, handing back the directory it held.
    pub fn release(&mut self, handle: DirHandle) -> (r: Option<(H, usize)>)
        ensures
            handle.slot() < 4 ==> r == old(self).view()[handle.slot()] && final(self).view() == old(
                self,
            ).view().update(handle.slot(), None),
            handle.slot() >= 4 ==> r is None && final(self).view() == old(self).view(),
    {
        let i = handle.0 as usize;
        if i < MAX_OPEN_DIRS {
            let r = self.slots[i];
            self.slots[i] = None;
            r
        } else {
            None
        }
    }
}

/// A released slot is the first one the next claim hands out, when every
/// lower slot is in use.
pub proof fn law_release_then_claim_reuses<H>(slots: Seq<Option<H>>, i: int)
    requires
        0 <= i < slots.len(),
        forall|j: int| 0 <= j < i ==> #[trigger] slots[j] is Some,
    ensures
        first_empty(slots.update(i, None), 0) == i,
{
    let s = slots.update(i, None);
    lemma_first_empty_at(s, 0, i);
}

// ── Directory entries ────────────────────────────────────────────────────────

/// An 8.3 name laid out space-padded: base in bytes 0–7, extension in 8–10.
pub open spec fn spec_short_name(base: Seq<u8>, ext: Seq<u8>) -> Seq<u8> {
    Seq::new(
        11,
        |i: int|
            if i < base.len() {
                base[i]
            } else if 8 <= i < 8 + ext.len() {
                ext[i - 8]
            } else {
                0x20u8
            },
    )
}

/// Lay out an 8.3 name's base and extension in the raw 11-byte form.
pub fn short_name_bytes(base: &[u8], ext: &[u8]) -> (name: [u8; 11])
    requires
        base@.len() <= 8,
        ext@.len() <= 3,
    ensures
        name@ == spec_short_name(base@, ext@),
{
    let mut name = [0x20u8; 11];
    let mut i: usize = 0;
    while i < base.len()
        invariant
            i <= base@.len() <= 8,
            forall|k: int| 0 <= k < 11 ==> #[trigger] name@[k] == if k < i {
                base@[k]
            } else {
                0x20u8
            },
        decreases base@.len() - i,
    {
        name[i] = base[i];
        i += 1;
    }
    let mut j: usize = 0;
    while j < ext.len()
        invariant
            j <= ext@.len() <= 3,
            base@.len() <= 8,
            forall|k: int| 0 <= k < 11 ==> #[trigger] name@[k] == if k < base@.len() {
                base@[k]
            } else if 8 <= k < 8 + j {
                ext@[k - 8]
            } else {
                0x20u8
            },
        decreases ext@.len() - j,
    {
        name[8 + j] = ext[j];
        j += 1;
    }
    assert(name@ =~= spec_short_name(base@, ext@));
    name
}

/// One pass over a directory's entries that picks out the entry at a given
/// position (the next one a reader has not seen).
pub struct DirScan {
    target: usize,
    seen: usize,
    found: Option<PdDirEntry>,
    visited: Ghost<Seq<PdDirEntry>>,
}

/// The entry at position `target` of `entries`, or `None` past the end.
pub open spec fn entry_at(entries: Seq<PdDirEntry>, target: int) -> Option<PdDirEntry> {
    if 0 <= target < entries.len() {
        Some(entries[target])
    } else {
        None
    }
}

impl DirScan {
    pub closed spec fn target(&self) -> int {
        self.target as int
    }

    pub closed spec fn seen(&self) -> int {
        self.seen as int
    }

    /// The entries visited so far, in order.
    pub closed spec fn visited(&self) -> Seq<PdDirEntry> {
        self.visited@
    }

    pub closed spec fn found_entry(&self) -> Option<PdDirEntry> {
        self.found
    }

    #[verifier::type_invariant]
    spec fn inv(self) -> bool {
        &&& self.seen == self.visited@.len()
        &&& self.found == entry_at(self.visited@, self.target as int)
    }

    /// A scan for the entry at position `target`.
    pub fn new(target: usize) -> (s: Self)
        ensures
            s.target() == target,
            s.seen() == 0,
            s.visited() == Seq::<PdDirEntry>::empty(),
            s.found_entry() is None,
    {
        DirScan { target, seen: 0, found: None, visited: Ghost(Seq::empty()) }
    }

    /// Count one entry; keep it when it is at the target position.
    pub fn visit(&mut self, name: [u8; 11], is_directory: bool, size: u32)
        requires
            old(self).seen() < usize::MAX,
        ensures
            final(self).target() == old(self).target(),
            final(self).seen() == old(self).seen() + 1,
            final(self).visited() == old(self).visited().push(
                PdDirEntry {
                    name,
                    entry_type: if is_directory {
                        EntryType::Directory
                    } else {
                        EntryType::File
                    },
                    size,
                },
            ),
            final(self).found_entry() == if old(self).seen() == old(self).target() {
                Some(
                    PdDirEntry {
                        name,
                        entry_type: if is_directory {
                            EntryType::Directory
                        } else {
                            EntryType::File
                        },
                        size,
                    },
                )
            } else {
                old(self).found_entry()
            },
    {
        proof {
            use_type_invariant(&*self);
        }
        let entry_type = if is_directory {
            EntryType::Directory
        } else {
            EntryType::File
        };
        let entry = PdDirEntry { name, entry_type, size };
        let ghost visited = self.visited@.push(entry);
        let found = if self.seen == self.target {
            Some(entry)
        } else {
            self.found
        };
        assert(found == entry_at(visited, self.target as int));
        *self = DirScan {
            target: self.target,
            seen: self.seen + 1,
            found,
            visited: Ghost(visited),
        };
    }

    /// The entry at the target position among those visited; once the whole
    /// directory has been visited, the target-th entry, or `None` past its end.
    pub fn found(&self) -> (r: Option<PdDirEntry>)
        ensures
            r == self.found_entry(),
            r == entry_at(self.visited(), self.target()),
            self.seen() == self.visited().len(),
    {
        proof {
            use_type_invariant(self);
        }
        self.found
    }
}

/// Finish one read of the directory in `handle`'s slot: `scan` walked the
/// listing from that slot's position; its entry is the result, and the
/// position moves on by one when there was one.
pub fn finish_read<H: Copy>(slots: &mut DirSlots<H>, handle: DirHandle, scan: &DirScan) -> (r: Option<
    PdDirEntry,
>)
    requires
        handle.slot() < 4,
        old(slots).view()[handle.slot()] matches Some(open) && open.1 == scan.target() && open.1
            < usize::MAX,
    ensures
        r == entry_at(scan.visited(), scan.target()),
        r is Some ==> final(slots).view() == old(slots).view().update(
            handle.slot(),
            Some(
                (
                    old(slots).view()[handle.slot()]->Some_0.0,
                    (old(slots).view()[handle.slot()]->Some_0.1 + 1) as usize,
                ),
            ),
        ),
        r is None ==> final(slots).view() == old(slots).view(),
{
    let found = scan.found();
    if found.is_some() {
        slots.advance(handle);
    }
    found
}

/// Where a reader of `entries` stands after `k` reads from the start, each
/// walking the whole listing and moving on when it found an entry.
pub open spec fn read_position(entries: Seq<PdDirEntry>, k: nat) -> int
    decreases k,
{
    if k == 0 {
        0
    } else {
        let p = read_position(entries, (k - 1) as nat);
        if entry_at(entries, p) is Some {
            p + 1
        } else {
            p
        }
    }
}

/// Successive reads of an unchanged directory hand out its entries in order,
/// then `None` for good: read `k` (from 0) returns entry `k`, or `None` once
/// `k` is past the end.
pub proof fn law_successive_reads(entries: Seq<PdDirEntry>, k: nat)
    ensures
        read_position(entries, k) == if k < entries.len() {
            k as int
        } else {
            entries.len() as int
        },
        entry_at(entries, read_position(entries, k)) == entry_at(entries, k as int),
    decreases k,
{
    if k > 0 {
        law_successive_reads(entries, (k - 1) as nat);
    }
}

// ── Stat ─────────────────────────────────────────────────────────────────────

/// The base name and extension `embedded-sdmmc` makes of `path` as an 8.3
/// name, or `None` when it refuses the path.
pub uninterp spec fn sdmmc_short_name(path: Seq<char>) -> Option<(Seq<u8>, Seq<u8>)>;

/// An 8.3 name taken apart: the base name and the extension, without padding.
pub struct ShortNameParts {
    pub base: Vec<u8>,
    pub ext: Vec<u8>,
}

/// `embedded-sdmmc`'s `ToShortFileName::to_short_filename` on a `&str` (that is,
/// `ShortFileName::create_from_str`), taken apart into its base name and
/// extension (`ShortFileName::base_name`, `ShortFileName::extension`).
///
/// Claimed: when the crate accepts `path`, the parts are the named result for
/// it, the base at most 8 bytes and the extension at most 3 (both are cut
/// from the 11-byte name at its first space); a refused path gives
/// `None`.
#[verifier::external_body]
fn short_name_parts(path: &str) -> (r: Option<ShortNameParts>)
    ensures
        sdmmc_short_name(path@) is None ==> r is None,
        sdmmc_short_name(path@) is Some ==> r is Some && (r->Some_0.base@, r->Some_0.ext@)
            == sdmmc_short_name(path@)->Some_0,
        r is Some ==> r->Some_0.base@.len() <= 8 && r->Some_0.ext@.len() <= 3,
{
    match path.to_short_filename() {
        Ok(name) => Some(ShortNameParts { base: name.base_name().to_vec(), ext: name.extension().to_vec() }),
        Err(_) => None,
    }
}

/// The raw 11-byte 8.3 name that `fs_stat` looks for, for `path`.
pub fn stat_target(path: &str) -> (r: Result<[u8; 11], StorageError>)
    ensures
        r matches Ok(n) ==> (sdmmc_short_name(path@) matches Some((base, ext)) && n@
            == spec_short_name(base, ext)),
        r is Err ==> sdmmc_short_name(path@) is None && r == Err::<[u8; 11], StorageError>(
            StorageError::InvalidFormat,
        ),
{
    match short_name_parts(path) {
        Some(parts) => Ok(short_name_bytes(parts.base.as_slice(), parts.ext.as_slice())),
        None => Err(StorageError::InvalidFormat),
    }
}

/// What a walk of a directory reports for `target`: the last entry with that
/// name, as a directory or a file with its size; `None` when no entry has it.
pub open spec fn last_match(entries: Seq<PdDirEntry>, target: Seq<u8>) -> Option<PdStat>
    decreases entries.len(),
{
    if entries.len() == 0 {
        None
    } else if entries.last().name@ == target {
        Some(PdStat { entry_type: entries.last().entry_type, size: entries.last().size })
    } else {
        last_match(entries.drop_last(), target)
    }
}

/// One walk of a directory looking for the entry named `target`.
pub struct StatScan {
    target: [u8; 11],
    found: Option<PdStat>,
    visited: Ghost<Seq<PdDirEntry>>,
}

impl StatScan {
    pub closed spec fn target(&self) -> Seq<u8> {
        self.target@
    }

    /// The entries visited so far, in order.
    pub closed spec fn visited(&self) -> Seq<PdDirEntry> {
        self.visited@
    }

    pub closed spec fn found_stat(&self) -> Option<PdStat> {
        self.found
    }

    #[verifier::type_invariant]
    spec fn inv(self) -> bool {
        self.found == last_match(self.visited@, self.target@)
    }

    /// A walk looking for `target`.
    pub fn new(target: [u8; 11]) -> (s: Self)
        ensures
            s.target() == target@,
            s.visited() == Seq::<PdDirEntry>::empty(),
            s.found_stat() is None,
    {
        StatScan { target, found: None, visited: Ghost(Seq::empty()) }
    }

    /// Look at one entry: when it has the target name it is what is found.
    pub fn visit(&mut self, name: [u8; 11], is_directory: bool, size: u32)
        ensures
            final(self).target() == old(self).target(),
            final(self).visited() == old(self).visited().push(
                PdDirEntry {
                    name,
                    entry_type: if is_directory {
                        EntryType::Directory
                    } else {
                        EntryType::File
                    },
                    size,
                },
            ),
            final(self).found_stat() == if name@ == old(self).target() {
                Some(
                    PdStat {
                        entry_type: if is_directory {
                            EntryType::Directory
                        } else {
                            EntryType::File
                        },
                        size,
                    },
                )
            } else {
                old(self).found_stat()
            },
    {
        proof {
            use_type_invariant(&*self);
        }
        let entry_type = if is_directory {
            EntryType::Directory
        } else {
            EntryType::File
        };
        let entry = PdDirEntry { name, entry_type, size };
        let ghost visited = self.visited@.push(entry);
        let found = if crate::platform::bytes_equal(name.as_slice(), self.target.as_slice()) {
            Some(PdStat { entry_type, size })
        } else {
            self.found
        };
        assert(visited.drop_last() =~= self.visited@);
        *self = StatScan { target: self.target, found, visited: Ghost(visited) };
    }

    /// The answer of the walk: the last entry with the target name, or
    /// `NotFound` when none had it.
    pub fn finish(&self) -> (r: Result<PdStat, StorageError>)
        ensures
            match last_match(self.visited(), self.target()) {
                Some(st) => r == Ok::<PdStat, StorageError>(st),
                None => r == Err::<PdStat, StorageError>(StorageError::NotFound),
            },
    {
        proof {
            use_type_invariant(self);
        }
        match self.found {
            Some(st) => Ok(st),
            None => Err(StorageError::NotFound),
        }
    }
}

} // verus!
