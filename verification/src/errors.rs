use vstd::prelude::*;

verus! {

/// Failure kinds of the secure key custodian. They are returned to the
/// immediate caller as opaque kinds: no key material or internal detail
/// travels with them.
#[derive(Debug, Clone, Copy, PartialEq, Eq, Structural)]
pub enum SecurityError {
    /// The backing region could not be allocated (fatal to construction).
    AllocationFailed,
    /// The platform refused to pin the region's pages.
    MemoryLockFailed,
    /// The platform refused to unpin the region's pages.
    MemoryUnlockFailed,
    /// A caller handed in a size or payload the region cannot hold.
    InvalidInput,
    /// Sealing the secret under the in-memory key failed.
    EncryptionFailed,
    /// The sealed bytes could not be opened again.
    DecryptionFailed,
    /// The random source kept returning patterned bytes, or the secret
    /// itself has too little variety to serve as key material.
    InsufficientEntropy,
    /// A guard value no longer matches its recorded original: something
    /// wrote into the protected region from outside.
    MemoryCorruption,
}

} // verus!
