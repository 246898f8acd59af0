//! The bit layout of the memory-mapped command/status interface, and the
//! controller state that serves it.

use vstd::prelude::*;
use crate::error::ShadowError;
use crate::fuse_manager::{FuseBus, FuseManager};
use crate::shadow_register::RegisterState;
use crate::sync_manager::{sync_outcome, SyncDirection, SyncManager, SyncPolicy, SyncStatus};

verus! {

/// Base address of the shadow register interface.
pub const SHADOW_REG_BASE: usize = 0x5000_0000;

/// Base address of the fuse control interface.
pub const FUSE_CTRL_BASE: usize = 0x5100_0000;

/// Base address of the synchronization control interface.
pub const SYNC_CTRL_BASE: usize = 0x5200_0000;

/// The register block of the interface.
///
/// `control`: bits 7..0 command, bits 15..8 register id.
/// `status`: bit 0 busy, bit 1 error, bit 2 locked, bits 7..3 state code,
/// bits 15..8 version (low byte), bits 31..16 checksum (low half).
#[derive(Debug, Clone, Copy)]
pub struct ShadowRegisterMMIO {
    /// Command and register id.
    pub control: u32,
    /// Staged or read value.
    pub data: u64,
    /// Physical fuse address.
    pub address: u64,
    /// Status bits.
    pub status: u32,
    /// Parity bits.
    pub ecc: u32,
}

/// Commands of the interface.
#[derive(Debug, Clone, Copy, PartialEq, Eq, Structural)]
pub enum MMIOCommand {
    /// No operation.
    Nop,
    /// Read a shadow register.
    Read,
    /// Write a shadow register.
    Write,
    /// Commit a shadow register.
    Commit,
    /// Roll a shadow register back.
    Rollback,
    /// Lock a register.
    Lock,
    /// Unlock a register.
    Unlock,
    /// Verify a checksum.
    Verify,
    /// Load from the fuse.
    LoadFuse,
    /// Commit to the fuse.
    CommitFuse,
    /// Synchronize.
    Sync,
}

impl MMIOCommand {
    /// The command code.
    pub open spec fn code_spec(self) -> u8 {
        match self {
            MMIOCommand::Nop => 0x00,
            MMIOCommand::Read => 0x01,
            MMIOCommand::Write => 0x02,
            MMIOCommand::Commit => 0x03,
            MMIOCommand::Rollback => 0x04,
            MMIOCommand::Lock => 0x05,
            MMIOCommand::Unlock => 0x06,
            MMIOCommand::Verify => 0x07,
            MMIOCommand::LoadFuse => 0x08,
            MMIOCommand::CommitFuse => 0x09,
            MMIOCommand::Sync => 0x0A,
        }
    }

    /// The command code.
    pub fn code(&self) -> (r: u8)
        ensures
            r == self.code_spec(),
    {
        match self {
            MMIOCommand::Nop => 0x00,
            MMIOCommand::Read => 0x01,
            MMIOCommand::Write => 0x02,
            MMIOCommand::Commit => 0x03,
            MMIOCommand::Rollback => 0x04,
            MMIOCommand::Lock => 0x05,
            MMIOCommand::Unlock => 0x06,
            MMIOCommand::Verify => 0x07,
            MMIOCommand::LoadFuse => 0x08,
            MMIOCommand::CommitFuse => 0x09,
            MMIOCommand::Sync => 0x0A,
        }
    }
}

/// The control word for `command` on `register_id`.
pub open spec fn control_word_spec(command: MMIOCommand, register_id: u8) -> u32 {
    (command.code_spec() as u32) | ((register_id as u32) << 8u32)
}

/// Packs `command` into bits 7..0 and `register_id` into bits 15..8.
pub fn control_word(command: MMIOCommand, register_id: u8) -> (r: u32)
    ensures
        r == control_word_spec(command, register_id),
        r & 0xFF == command.code_spec() as u32,
        (r >> 8u32) & 0xFF == register_id as u32,
        r >> 16u32 == 0,
{
    let c = command.code() as u32;
    let id = register_id as u32;
    assert((c | (id << 8u32)) & 0xFF == c && ((c | (id << 8u32)) >> 8u32) & 0xFF == id && (c | (id
        << 8u32)) >> 16u32 == 0) by (bit_vector)
        requires
            c < 256,
            id < 256,
    ;
    c | (id << 8)
}

/// Outcome of a completed command, read off its status word.
pub fn command_result(status: u32) -> (r: Result<(), ShadowError>)
    ensures
        r == if status & 0x2 != 0 {
            Err::<(), ShadowError>(ShadowError::MmioCommandFailed)
        } else {
            Ok::<(), ShadowError>(())
        },
{
    if (status & 0x2) != 0 {
        Err(ShadowError::MmioCommandFailed)
    } else {
        Ok(())
    }
}

impl ShadowRegisterMMIO {
    /// The control register.
    pub fn read_control(&self) -> (r: u32)
        ensures
            r == self.control,
    {
        self.control
    }

    /// Sets the control register.
    pub fn write_control(&mut self, value: u32)
        ensures
            *final(self) == (ShadowRegisterMMIO { control: value, ..*old(self) }),
    {
        self.control = value;
    }

    /// The data register.
    pub fn read_data(&self) -> (r: u64)
        ensures
            r == self.data,
    {
        self.data
    }

    /// Sets the data register.
    pub fn write_data(&mut self, value: u64)
        ensures
            *final(self) == (ShadowRegisterMMIO { data: value, ..*old(self) }),
    {
        self.data = value;
    }

    /// The status register.
    pub fn read_status(&self) -> (r: u32)
        ensures
            r == self.status,
    {
        self.status
    }

    /// Status bit 0.
    pub fn is_busy(&self) -> (r: bool)
        ensures
            r == (self.status & 0x1 != 0),
    {
        (self.status & 0x1) != 0
    }

    /// Status bit 1.
    pub fn has_error(&self) -> (r: bool)
        ensures
            r == (self.status & 0x2 != 0),
    {
        (self.status & 0x2) != 0
    }

    /// The register state coded in status bits 7..3.
    pub fn get_state(&self) -> (r: RegisterState)
        ensures
            r == RegisterState::from_code(((self.status >> 3u32) & 0x1F) as u8),
    {
        let state_bits = ((self.status >> 3) & 0x1F) as u8;
        RegisterState::from(state_bits)
    }

    /// The version byte in status bits 15..8.
    pub fn get_version(&self) -> (r: u8)
        ensures
            r == ((self.status >> 8u32) & 0xFF) as u8,
    {
        ((self.status >> 8) & 0xFF) as u8
    }
}

/// State of the controller that serves the interface: where its register
/// block sits, and the synchronization manager its `Sync` command uses. The
/// bank and fuse manager it acts on are borrowed per call.
pub struct ShadowMMIOController {
    mmio_base: usize,
    sync_manager: SyncManager,
}

impl ShadowMMIOController {
    /// Address of the register block.
    pub closed spec fn base_spec(&self) -> usize {
        self.mmio_base
    }

    /// The controller's synchronization manager.
    pub closed spec fn sync_spec(&self) -> SyncManager {
        self.sync_manager
    }

    /// Creates a controller for the block at `SHADOW_REG_BASE`.
    pub fn new() -> (r: ShadowMMIOController)
        ensures
            r.base_spec() == SHADOW_REG_BASE,
            r.sync_spec().status_spec() == SyncStatus::Idle,
            !r.sync_spec().holds_flag(),
            r.sync_spec().count_spec() == 0,
    {
        ShadowMMIOController { mmio_base: SHADOW_REG_BASE, sync_manager: SyncManager::new() }
    }

    /// Address of the register block.
    pub fn mmio_base(&self) -> (r: usize)
        ensures
            r == self.base_spec(),
    {
        self.mmio_base
    }

    /// Synchronizes register `register_id` with the controller's manager.
    pub fn mmio_sync<B: FuseBus>(
        &mut self,
        fuse_manager: &mut FuseManager,
        bus: &mut B,
        register_id: u8,
        direction: SyncDirection,
        policy: SyncPolicy,
    ) -> (r: Result<(), ShadowError>)
        ensures
            final(self).base_spec() == old(self).base_spec(),
            old(self).sync_spec().holds_flag() ==> r == Err::<(), ShadowError>(
                ShadowError::SyncInProgress,
            ) && final(fuse_manager).fuses() == old(fuse_manager).fuses()
                && final(fuse_manager).shadows() == old(fuse_manager).shadows(),
            !old(self).sync_spec().holds_flag() ==> exists|raw: u64, second: u64|
                (final(fuse_manager).fuses(), final(fuse_manager).shadows(), r) == #[trigger] sync_outcome(
                    old(fuse_manager).fuses(),
                    old(fuse_manager).shadows(),
                    register_id as u32,
                    direction,
                    policy,
                    raw,
                    second,
                ),
    {
        self.sync_manager.sync_register(fuse_manager, bus, register_id as u32, direction, policy)
    }
}

} // verus!
