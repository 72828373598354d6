use vstd::prelude::*;

use crate::backends::storage::StorageBackend;

verus! {

/// A database store with no connection behind it yet: writes and cleanup
/// succeed and change nothing, and reads give a fixed string.
#[derive(Debug, Clone, Copy)]
pub struct DatabaseBackend {}

impl DatabaseBackend {
    pub fn new() -> Self {
        DatabaseBackend {  }
    }
}

impl Default for DatabaseBackend {
    fn default() -> Self {
        DatabaseBackend::new()
    }
}

impl StorageBackend for DatabaseBackend {
    fn write(&mut self, data: &str) -> Result<(), String> {
        Ok(())
    }

    fn read(&mut self) -> Result<String, String> {
        Ok("data from db".to_owned())
    }

    fn cleanup(&mut self) -> Result<(), String> {
        Ok(())
    }
}

} // verus!
