use vstd::prelude::*;

verus! {

/// A store that holds one string: each write replaces what was there.
pub trait StorageBackend {
    /// Replaces the stored string with `data`.
    fn write(&mut self, data: &str) -> Result<(), String>;

    /// The stored string.
    fn read(&mut self) -> Result<String, String>;

    /// Releases what the store holds.
    fn cleanup(&mut self) -> Result<(), String>;
}

} // verus!
