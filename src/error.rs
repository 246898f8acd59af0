//! Error kinds reported by the shadow register engine.

use vstd::prelude::*;

verus! {

/// Every way an operation of this library can fail.
#[derive(Debug, Clone, Copy, PartialEq, Eq, Structural)]
pub enum ShadowError {
    /// The register's write-protection flag is set.
    WriteProtected,
    /// The register is in the `Locked` state.
    RegisterLocked,
    /// `commit` was called on a register that is not `Modified`.
    NoPendingChanges,
    /// The shadow register bank has no free slot.
    BankFull,
    /// The fuse's lock bit is set.
    FuseLocked,
    /// A one-time-programmable fuse was already programmed.
    OtpAlreadyProgrammed,
    /// The per-fuse ECC bits disagree with the value read back.
    EccMismatch,
    /// The value read back after programming differs from the value written.
    VerificationFailed,
    /// Only a programmed fuse can be blown.
    NotProgrammed,
    /// The fuse manager has no free slot.
    FuseManagerFull,
    /// A fuse index past the number of fuses.
    InvalidFuseIndex,
    /// No shadow register is paired with the fuse.
    ShadowNotFound,
    /// No fuse is paired with the register id.
    FuseNotFound,
    /// No register carries the requested id.
    RegisterNotFound,
    /// The register's stored checksum does not match its value.
    ChecksumMismatch,
    /// The version is not (or no longer) held in the history.
    VersionNotFound,
    /// The relative offset reaches past the held history.
    OffsetOutOfRange,
    /// A history entry failed its integrity check.
    VersionCorrupted,
    /// The versioned runtime has no free slot.
    RuntimeFull,
    /// A register index past the number of registers.
    InvalidRegisterIndex,
    /// Another synchronization holds the exclusive flag.
    SyncInProgress,
    /// Fuse and shadow disagree and the policy does not resolve it.
    SyncConflict,
    /// The Hamming syndrome names no single bit.
    MultiBitUncorrectable,
    /// A block does not fit next to its parity symbols.
    DataTooLarge,
    /// An encoded block is shorter than its parity symbols.
    EncodedTooShort,
    /// The block parity symbols do not match the data.
    BlockErrorDetected,
    /// The MMIO status register reported an error.
    MmioCommandFailed,
}

impl ShadowError {
    /// A short human-readable description of the error.
    pub fn message(&self) -> &'static str {
        match self {
            ShadowError::WriteProtected => "Register is write-protected",
            ShadowError::RegisterLocked => "Register is locked",
            ShadowError::NoPendingChanges => "No pending changes to commit",
            ShadowError::BankFull => "Register bank is full",
            ShadowError::FuseLocked => "Fuse is locked",
            ShadowError::OtpAlreadyProgrammed => "OTP fuse already programmed",
            ShadowError::EccMismatch => "ECC mismatch - fuse data corrupted",
            ShadowError::VerificationFailed => "Fuse programming verification failed",
            ShadowError::NotProgrammed => "Can only blow programmed fuses",
            ShadowError::FuseManagerFull => "Fuse manager is full",
            ShadowError::InvalidFuseIndex => "Invalid fuse index",
            ShadowError::ShadowNotFound => "Shadow register not found",
            ShadowError::FuseNotFound => "Fuse not found",
            ShadowError::RegisterNotFound => "Register not found",
            ShadowError::ChecksumMismatch => "Register checksum verification failed",
            ShadowError::VersionNotFound => "Version not found in history",
            ShadowError::OffsetOutOfRange => "Version offset out of range",
            ShadowError::VersionCorrupted => "Version entry corrupted",
            ShadowError::RuntimeFull => "Runtime is full",
            ShadowError::InvalidRegisterIndex => "Invalid register index",
            ShadowError::SyncInProgress => "Sync already in progress",
            ShadowError::SyncConflict => "Sync conflict detected",
            ShadowError::MultiBitUncorrectable => "Multi-bit error detected - cannot correct",
            ShadowError::DataTooLarge => "Data too large for block size",
            ShadowError::EncodedTooShort => "Encoded data too short",
            ShadowError::BlockErrorDetected => "Reed-Solomon error detected",
            ShadowError::MmioCommandFailed => "MMIO command failed",
        }
    }
}

} // verus!
