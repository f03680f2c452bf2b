use vstd::prelude::*;

use crate::abi::PD_ABI_VERSION;
use vstd::string::StringSliceAdditionalSpecFns;
use crate::pdb::{
    header_matches_bytes, parse_fixed_header, spec_header_identity, validate_header_identity,
    PdbHeader, PDB_HEADER_SIZE,
};
use crate::platform::{KernelSupport, LogLevel, StorageError, StorageReader, SupportCall};

verus! {

#[derive(Clone, Copy, Debug, Eq, PartialEq, Structural)]
pub struct AbiMetadata {
    pub abi_version: u32,
    pub kernel_version: u32,
}

#[derive(Clone, Copy, Debug, Eq, PartialEq, Structural)]
pub struct BootState {
    pub boot_millis: u32,
    pub storage_probe_len: usize,
    pub abi: AbiMetadata,
}

/// Whether a probe read passes the boot check: exactly one header's worth of
/// bytes, holding a header with the right identity.
pub open spec fn probe_ok(len: usize, probe: Seq<u8>) -> bool {
    len == PDB_HEADER_SIZE && forall|h: PdbHeader|
        #![trigger header_matches_bytes(h, probe)]
        header_matches_bytes(h, probe) ==> spec_header_identity(h) is Ok
}

/// What the boot path makes of a probe read: the read's own error, or
/// `InvalidData` unless the probe passes the check.
pub fn check_boot_probe(read: Result<usize, StorageError>, probe: &[u8; 104]) -> (r: Result<
    usize,
    StorageError,
>)
    ensures
        read matches Err(e) ==> r == Err::<usize, StorageError>(e),
        read matches Ok(n) ==> {
            &&& probe_ok(n, probe@) ==> r == Ok::<usize, StorageError>(n)
            &&& !probe_ok(n, probe@) ==> r == Err::<usize, StorageError>(
                StorageError::InvalidData,
            )
        },
{
    let n = read?;
    if n != PDB_HEADER_SIZE {
        return Err(StorageError::InvalidData);
    }
    let header = match parse_fixed_header(probe.as_slice()) {
        Ok(h) => h,
        Err(_) => return Err(StorageError::InvalidData),
    };
    assert forall|h: PdbHeader| #![trigger header_matches_bytes(h, probe@)] header_matches_bytes(
        h,
        probe@,
    ) implies spec_header_identity(h) == spec_header_identity(header) by {}
    match validate_header_identity(&header) {
        Ok(()) => Ok(n),
        Err(_) => Err(StorageError::InvalidData),
    }
}

/// Probe storage for a valid `.pdb` header at `probe_path`, feed the watchdog,
/// log, and report the boot time and ABI.
pub fn boot<S: StorageReader, K: KernelSupport>(storage: &S, support: &mut K, probe_path: &str) -> (r:
    Result<BootState, StorageError>)
    ensures
        match storage.read_outcome(probe_path.spec_bytes(), PDB_HEADER_SIZE as nat) {
            Err(e) => r == Err::<BootState, StorageError>(e),
            Ok(bytes) => {
                &&& probe_ok(bytes.len() as usize, bytes) ==> r is Ok
                &&& !probe_ok(bytes.len() as usize, bytes) ==> r == Err::<BootState, StorageError>(
                    StorageError::InvalidData,
                )
            },
        },
        r matches Ok(state) ==> {
            &&& state.storage_probe_len == PDB_HEADER_SIZE
            &&& state.abi == (AbiMetadata { abi_version: PD_ABI_VERSION, kernel_version: 1 })
            &&& final(support).calls() == old(support).calls() + seq![
                SupportCall::FeedWatchdog,
                SupportCall::Log(LogLevel::Info, "boot"@),
                SupportCall::ReadClock(state.boot_millis),
            ]
        },
        r is Err ==> final(support).calls() == old(support).calls(),
{
    let mut probe = [0u8; PDB_HEADER_SIZE];
    let read = storage.read(probe_path, &mut probe);
    proof {
        if read is Ok {
            let n = read->Ok_0;
            if n == PDB_HEADER_SIZE {
                assert(probe@ =~= probe@.subrange(0, n as int));
            }
        }
    }
    let storage_probe_len = check_boot_probe(read, &probe)?;

    support.feed_watchdog();
    support.log(LogLevel::Info, "boot");
    let boot_millis = support.millis();
    assert(support.calls() =~= old(support).calls() + seq![
        SupportCall::FeedWatchdog,
        SupportCall::Log(LogLevel::Info, "boot"@),
        SupportCall::ReadClock(boot_millis),
    ]);

    Ok(
        BootState {
            boot_millis,
            storage_probe_len,
            abi: AbiMetadata { abi_version: PD_ABI_VERSION, kernel_version: 1 },
        },
    )
}

} // verus!
