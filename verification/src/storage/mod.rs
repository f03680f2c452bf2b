pub mod error;
pub mod fs;
pub mod sd;

pub use error::StorageError;
