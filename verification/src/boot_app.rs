use vstd::prelude::*;

use crate::loader;
use crate::storage::StorageError;

verus! {

#[allow(inconsistent_fields)]
#[derive(Clone, Copy, Debug, Eq, PartialEq, Structural)]
pub enum LoadAndRunError {
    Storage(StorageError),
    FileTooLarge { size: usize, capacity: usize },
    ShortRead { expected: usize, read: usize },
    Loader(loader::LoadAndRunError),
}

impl From<StorageError> for LoadAndRunError {
    fn from(value: StorageError) -> (r: Self) {
        LoadAndRunError::Storage(value)
    }
}

impl vstd::std_specs::convert::FromSpecImpl<StorageError> for LoadAndRunError {
    open spec fn obeys_from_spec() -> bool {
        true
    }

    open spec fn from_spec(v: StorageError) -> Self {
        LoadAndRunError::Storage(v)
    }
}

impl From<loader::LoadAndRunError> for LoadAndRunError {
    fn from(value: loader::LoadAndRunError) -> (r: Self) {
        LoadAndRunError::Loader(value)
    }
}

impl vstd::std_specs::convert::FromSpecImpl<loader::LoadAndRunError> for LoadAndRunError {
    open spec fn obeys_from_spec() -> bool {
        true
    }

    open spec fn from_spec(v: loader::LoadAndRunError) -> Self {
        LoadAndRunError::Loader(v)
    }
}

/// Check a `.pdb` file of `size` bytes (as stat reports it) against a load
/// buffer of `capacity` bytes; the size to read when it fits.
pub fn check_pdb_fits(size: u32, capacity: usize) -> (r: Result<usize, LoadAndRunError>)
    ensures
        size <= capacity ==> r == Ok::<usize, LoadAndRunError>(size as usize),
        size > capacity ==> r == Err::<usize, LoadAndRunError>(
            LoadAndRunError::FileTooLarge { size: size as usize, capacity },
        ),
{
    let size = size as usize;
    if size > capacity {
        return Err(LoadAndRunError::FileTooLarge { size, capacity });
    }
    Ok(size)
}

/// Account for one read of `n` bytes while loading `expected` bytes, `read`
/// of them so far: a read of nothing before the end is a short read.
pub fn account_read(read: usize, n: usize, expected: usize) -> (r: Result<usize, LoadAndRunError>)
    requires
        read <= expected,
        n <= expected - read,
    ensures
        n == 0 ==> r == Err::<usize, LoadAndRunError>(
            LoadAndRunError::ShortRead { expected, read },
        ),
        n > 0 ==> r == Ok::<usize, LoadAndRunError>((read + n) as usize),
{
    if n == 0 {
        return Err(LoadAndRunError::ShortRead { expected, read });
    }
    Ok(read + n)
}

} // verus!
