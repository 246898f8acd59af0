//! Shadow registers: staged write, commit and one-level rollback of a 64-bit
//! value guarded by a CRC-32 checksum, and a fixed-capacity bank of them.

use vstd::prelude::*;
use crate::crc::{crc32, crc32_spec};
use crate::error::ShadowError;

verus! {

/// Number of slots in a shadow register bank.
pub const BANK_CAPACITY: usize = 256;

/// Lifecycle state of a shadow register.
#[derive(Debug, Clone, Copy, PartialEq, Eq, Structural)]
pub enum RegisterState {
    /// Never written.
    Uninitialized,
    /// Loaded from a fuse.
    Loaded,
    /// A staged value waits for commit.
    Modified,
    /// The staged value became the current value.
    Committed,
    /// Modifications are refused.
    Locked,
    /// An integrity failure was detected.
    Error,
}

impl RegisterState {
    /// The state code used in status words (`Error` is `0xFF`).
    pub open spec fn code_spec(self) -> u8 {
        match self {
            RegisterState::Uninitialized => 0x00,
            RegisterState::Loaded => 0x01,
            RegisterState::Modified => 0x02,
            RegisterState::Committed => 0x03,
            RegisterState::Locked => 0x04,
            RegisterState::Error => 0xFF,
        }
    }

    /// The state that a code stands for; unknown codes mean `Error`.
    pub open spec fn from_code(val: u8) -> RegisterState {
        if val == 0 {
            RegisterState::Uninitialized
        } else if val == 1 {
            RegisterState::Loaded
        } else if val == 2 {
            RegisterState::Modified
        } else if val == 3 {
            RegisterState::Committed
        } else if val == 4 {
            RegisterState::Locked
        } else {
            RegisterState::Error
        }
    }

    /// The state code used in status words.
    pub fn code(&self) -> (r: u8)
        ensures
            r == self.code_spec(),
    {
        match self {
            RegisterState::Uninitialized => 0x00,
            RegisterState::Loaded => 0x01,
            RegisterState::Modified => 0x02,
            RegisterState::Committed => 0x03,
            RegisterState::Locked => 0x04,
            RegisterState::Error => 0xFF,
        }
    }
}

impl From<u8> for RegisterState {
    fn from(val: u8) -> (r: RegisterState)
        ensures
            r == RegisterState::from_code(val),
    {
        if val == 0 {
            RegisterState::Uninitialized
        } else if val == 1 {
            RegisterState::Loaded
        } else if val == 2 {
            RegisterState::Modified
        } else if val == 3 {
            RegisterState::Committed
        } else if val == 4 {
            RegisterState::Locked
        } else {
            RegisterState::Error
        }
    }
}

impl vstd::std_specs::convert::FromSpecImpl<u8> for RegisterState {
    open spec fn obeys_from_spec() -> bool {
        true
    }

    open spec fn from_spec(val: u8) -> RegisterState {
        RegisterState::from_code(val)
    }
}

/// A shadow copy of one hardware fuse value.
///
/// Any combination of field values is a state the register can be observed in:
/// a checksum that disagrees with the value models external corruption, which
/// `verify` detects.
#[derive(Debug, Clone, Copy)]
pub struct ShadowRegister {
    /// Identifier, unique within a bank.
    pub id: u32,
    /// Current (active) value.
    pub value: u64,
    /// Staged value, waiting for commit.
    pub shadow_value: u64,
    /// Lifecycle state.
    pub state: RegisterState,
    /// Write counter.
    pub version: u32,
    /// CRC-32 of the current value as of the last state change.
    pub checksum: u32,
    /// Physical address of the backing fuse.
    pub fuse_addr: u64,
    /// Write-protection flag.
    pub write_protected: bool,
    /// Value before the last commit, for one-level rollback.
    pub backup_value: u64,
}

impl ShadowRegister {
    /// The stored checksum matches the current value.
    pub open spec fn integrity_ok(self) -> bool {
        self.checksum == crc32_spec(self.value)
    }

    /// A fresh register.
    pub open spec fn initial(id: u32, fuse_addr: u64) -> ShadowRegister {
        ShadowRegister {
            id,
            value: 0,
            shadow_value: 0,
            state: RegisterState::Uninitialized,
            version: 0,
            checksum: 0,
            fuse_addr,
            write_protected: false,
            backup_value: 0,
        }
    }

    /// The error that `write` reports, if any.
    pub open spec fn write_error(self) -> Option<ShadowError> {
        if self.write_protected {
            Some(ShadowError::WriteProtected)
        } else if self.state == RegisterState::Locked {
            Some(ShadowError::RegisterLocked)
        } else {
            None
        }
    }

    /// The register after a successful staged write of `v`.
    pub open spec fn staged(self, v: u64) -> ShadowRegister {
        ShadowRegister {
            shadow_value: v,
            state: RegisterState::Modified,
            version: self.version.wrapping_add(1),
            ..self
        }
    }

    /// The register after a successful commit.
    pub open spec fn committed(self) -> ShadowRegister {
        ShadowRegister {
            backup_value: self.value,
            value: self.shadow_value,
            checksum: crc32_spec(self.shadow_value),
            state: RegisterState::Committed,
            ..self
        }
    }

    /// The register after a rollback to its backup value.
    pub open spec fn rolled_back(self) -> ShadowRegister {
        ShadowRegister {
            value: self.backup_value,
            shadow_value: self.backup_value,
            checksum: crc32_spec(self.backup_value),
            version: self.version.wrapping_sub(1),
            state: RegisterState::Committed,
            ..self
        }
    }

    /// The register and result after `write(v)`.
    pub open spec fn write_outcome(self, v: u64) -> (ShadowRegister, Result<(), ShadowError>) {
        match self.write_error() {
            Some(e) => (self, Err(e)),
            None => (self.staged(v), Ok(())),
        }
    }

    /// The register and result after `commit()`.
    pub open spec fn commit_outcome(self) -> (ShadowRegister, Result<(), ShadowError>) {
        if self.state == RegisterState::Modified {
            (self.committed(), Ok(()))
        } else {
            (self, Err(ShadowError::NoPendingChanges))
        }
    }

    /// Creates an uninitialized register.
    pub fn new(id: u32, fuse_addr: u64) -> (r: ShadowRegister)
        ensures
            r == ShadowRegister::initial(id, fuse_addr),
    {
        ShadowRegister {
            id,
            value: 0,
            shadow_value: 0,
            state: RegisterState::Uninitialized,
            version: 0,
            checksum: 0,
            fuse_addr,
            write_protected: false,
            backup_value: 0,
        }
    }

    /// The current (committed) value.
    pub fn read(&self) -> (r: u64)
        ensures
            r == self.value,
    {
        self.value
    }

    /// Stages `new_value`; the current value is untouched until `commit`.
    pub fn write(&mut self, new_value: u64) -> (r: Result<(), ShadowError>)
        ensures
            (*final(self), r) == old(self).write_outcome(new_value),
    {
        if self.write_protected {
            return Err(ShadowError::WriteProtected);
        }
        if self.state == RegisterState::Locked {
            return Err(ShadowError::RegisterLocked);
        }
        self.shadow_value = new_value;
        self.state = RegisterState::Modified;
        self.version = self.version.wrapping_add(1);
        Ok(())
    }

    /// Makes the staged value current, keeping the old one as backup.
    pub fn commit(&mut self) -> (r: Result<(), ShadowError>)
        ensures
            (*final(self), r) == old(self).commit_outcome(),
    {
        if self.state != RegisterState::Modified {
            return Err(ShadowError::NoPendingChanges);
        }
        self.backup_value = self.value;
        self.value = self.shadow_value;
        self.checksum = crc32(self.shadow_value);
        self.state = RegisterState::Committed;
        Ok(())
    }

    /// Restores the backup value and steps the version back by one.
    pub fn rollback(&mut self) -> (r: Result<(), ShadowError>)
        ensures
            r is Ok,
            *final(self) == old(self).rolled_back(),
    {
        self.value = self.backup_value;
        self.shadow_value = self.backup_value;
        self.checksum = crc32(self.backup_value);
        self.version = self.version.wrapping_sub(1);
        self.state = RegisterState::Committed;
        Ok(())
    }

    /// Whether the stored checksum matches the CRC-32 of the current value.
    pub fn verify(&self) -> (r: bool)
        ensures
            r == self.integrity_ok(),
    {
        self.checksum == crc32(self.value)
    }

    /// Locks the register and sets write protection.
    pub fn lock(&mut self)
        ensures
            *final(self) == (ShadowRegister {
                state: RegisterState::Locked,
                write_protected: true,
                ..*old(self)
            }),
    {
        self.state = RegisterState::Locked;
        self.write_protected = true;
    }

    /// Unlocks the register into `Committed` and clears write protection.
    pub fn unlock(&mut self)
        ensures
            *final(self) == (ShadowRegister {
                state: RegisterState::Committed,
                write_protected: false,
                ..*old(self)
            }),
    {
        self.state = RegisterState::Committed;
        self.write_protected = false;
    }

    /// Current lifecycle state.
    pub fn get_state(&self) -> (r: RegisterState)
        ensures
            r == self.state,
    {
        self.state
    }

    /// Current write counter.
    pub fn get_version(&self) -> (r: u32)
        ensures
            r == self.version,
    {
        self.version
    }

    /// Address of the backing fuse.
    pub fn get_fuse_address(&self) -> (r: u64)
        ensures
            r == self.fuse_addr,
    {
        self.fuse_addr
    }

    /// Register identifier.
    pub fn get_id(&self) -> (r: u32)
        ensures
            r == self.id,
    {
        self.id
    }
}

/// CRC round trip: a successful commit leaves a register whose checksum
/// verifies, and a register whose stored checksum was replaced by anything but
/// the CRC-32 of its value does not verify.
pub proof fn lemma_commit_then_verify(r: ShadowRegister, corrupted: u32)
    ensures
        r.commit_outcome().1 is Ok ==> r.commit_outcome().0.integrity_ok(),
        corrupted != crc32_spec(r.value) ==> !(ShadowRegister { checksum: corrupted, ..r }).integrity_ok(),
{
}

/// `i` is the first slot of `regs` that carries `id`.
pub open spec fn first_with_id(regs: Seq<ShadowRegister>, id: u32, i: int) -> bool {
    &&& 0 <= i < regs.len()
    &&& regs[i].id == id
    &&& forall|j: int| 0 <= j < i ==> #[trigger] regs[j].id != id
}

/// Some slot of `regs` carries `id`.
pub open spec fn has_id(regs: Seq<ShadowRegister>, id: u32) -> bool {
    exists|i: int| 0 <= i < regs.len() && #[trigger] regs[i].id == id
}

/// The first slot of `regs` that carries `id` (meaningful when `has_id`).
pub open spec fn id_slot(regs: Seq<ShadowRegister>, id: u32) -> int {
    choose|i: int| first_with_id(regs, id, i)
}

/// The first slot carrying an id is unique, and is what `id_slot` names.
pub proof fn lemma_id_slot(regs: Seq<ShadowRegister>, id: u32, k: int)
    requires
        first_with_id(regs, id, k),
    ensures
        id_slot(regs, id) == k,
        has_id(regs, id),
{
    let i = id_slot(regs, id);
    assert(first_with_id(regs, id, i));
    if i < k {
        assert(regs[i].id != id);
    } else if k < i {
        assert(regs[k].id != id);
    }
}

/// A fixed-capacity bank of shadow registers, addressed by id or by slot.
pub struct ShadowRegisterBank {
    registers: Vec<ShadowRegister>,
}

impl ShadowRegisterBank {
    /// The registers in slot order.
    pub closed spec fn regs(&self) -> Seq<ShadowRegister> {
        self.registers@
    }

    /// Creates an empty bank.
    pub fn new() -> (r: ShadowRegisterBank)
        ensures
            r.regs() == Seq::<ShadowRegister>::empty(),
    {
        ShadowRegisterBank { registers: Vec::new() }
    }

    /// Appends a fresh register in the next free slot and returns that slot.
    pub fn add_register(&mut self, id: u32, fuse_addr: u64) -> (r: Result<usize, ShadowError>)
        ensures
            old(self).regs().len() >= BANK_CAPACITY ==> r == Err::<usize, ShadowError>(
                ShadowError::BankFull,
            ) && final(self).regs() == old(self).regs(),
            old(self).regs().len() < BANK_CAPACITY ==> r == Ok::<usize, ShadowError>(
                old(self).regs().len() as usize,
            ) && final(self).regs() == old(self).regs().push(
                ShadowRegister::initial(id, fuse_addr),
            ),
    {
        if self.registers.len() >= BANK_CAPACITY {
            return Err(ShadowError::BankFull);
        }
        let index = self.registers.len();
        self.registers.push(ShadowRegister::new(id, fuse_addr));
        Ok(index)
    }

    /// Number of registers in use.
    pub fn get_register_count(&self) -> (r: usize)
        ensures
            r == self.regs().len(),
    {
        self.registers.len()
    }

    /// Slot of the first register that carries `id`.
    pub fn find_index(&self, id: u32) -> (r: Option<usize>)
        ensures
            match r {
                Some(i) => first_with_id(self.regs(), id, i as int) && id_slot(self.regs(), id)
                    == i,
                None => !has_id(self.regs(), id),
            },
    {
        let mut i: usize = 0;
        while i < self.registers.len()
            invariant
                i <= self.registers.len(),
                forall|j: int| 0 <= j < i ==> #[trigger] self.registers@[j].id != id,
            decreases self.registers.len() - i,
        {
            if self.registers[i].id == id {
                proof {
                    lemma_id_slot(self.registers@, id, i as int);
                }
                return Some(i);
            }
            i = i + 1;
        }
        None
    }

    /// The first register that carries `id`.
    pub fn get_register(&self, id: u32) -> (r: Option<&ShadowRegister>)
        ensures
            match r {
                Some(reg) => has_id(self.regs(), id) && *reg == self.regs()[id_slot(self.regs(), id)],
                None => !has_id(self.regs(), id),
            },
    {
        match self.find_index(id) {
            Some(i) => {
                proof {
                    lemma_id_slot(self.regs(), id, i as int);
                }
                Some(&self.registers[i])
            },
            None => None,
        }
    }

    /// The first register that carries `id`, for modification.
    pub fn get_register_mut(&mut self, id: u32) -> (r: Option<&mut ShadowRegister>)
        ensures
            match r {
                Some(reg) => has_id(old(self).regs(), id) && *reg == old(self).regs()[id_slot(
                    old(self).regs(),
                    id,
                )] && final(self).regs() == old(self).regs().update(
                    id_slot(old(self).regs(), id),
                    *final(reg),
                ),
                None => !has_id(old(self).regs(), id) && final(self).regs() == old(self).regs(),
            },
    {
        match self.find_index(id) {
            Some(i) => {
                proof {
                    lemma_id_slot(self.regs(), id, i as int);
                }
                Some(&mut self.registers[i])
            },
            None => None,
        }
    }

    /// The register in slot `index`.
    pub fn get_by_index(&self, index: usize) -> (r: Option<&ShadowRegister>)
        ensures
            match r {
                Some(reg) => index < self.regs().len() && *reg == self.regs()[index as int],
                None => index >= self.regs().len(),
            },
    {
        if index < self.registers.len() {
            Some(&self.registers[index])
        } else {
            None
        }
    }

    /// The register in slot `index`, for modification.
    pub fn get_by_index_mut(&mut self, index: usize) -> (r: Option<&mut ShadowRegister>)
        ensures
            match r {
                Some(reg) => index < old(self).regs().len() && *reg == old(self).regs()[index as int]
                    && final(self).regs() == old(self).regs().update(index as int, *final(reg)),
                None => index >= old(self).regs().len() && final(self).regs() == old(self).regs(),
            },
    {
        if index < self.registers.len() {
            Some(&mut self.registers[index])
        } else {
            None
        }
    }

    /// Whether every register passes its checksum check.
    pub fn verify_all(&self) -> (r: bool)
        ensures
            r == (forall|i: int| 0 <= i < self.regs().len() ==> #[trigger] self.regs()[i].integrity_ok()),
    {
        let mut i: usize = 0;
        while i < self.registers.len()
            invariant
                i <= self.registers.len(),
                forall|j: int| 0 <= j < i ==> #[trigger] self.registers@[j].integrity_ok(),
            decreases self.registers.len() - i,
        {
            if !self.registers[i].verify() {
                assert(!self.regs()[i as int].integrity_ok());
                return false;
            }
            i = i + 1;
        }
        true
    }

    /// Commits every register in the `Modified` state and returns how many.
    pub fn commit_all(&mut self) -> (r: Result<usize, ShadowError>)
        ensures
            r == Ok::<usize, ShadowError>(count_modified(old(self).regs()) as usize),
            final(self).regs() == commit_each(old(self).regs()),
    {
        let mut committed: usize = 0;
        let mut i: usize = 0;
        while i < self.registers.len()
            invariant
                i <= self.registers.len(),
                self.registers.len() == old(self).registers.len(),
                old(self).registers.len() <= usize::MAX,
                committed == count_modified(old(self).registers@.subrange(0, i as int)),
                committed <= i,
                forall|j: int| 0 <= j < i ==> #[trigger] self.registers@[j] == commit_each(old(self).registers@)[j],
                forall|j: int| i <= j < self.registers.len() ==> #[trigger] self.registers@[j] == old(self).registers@[j],
            decreases self.registers.len() - i,
        {
            proof {
                let s = old(self).registers@;
                assert(s.subrange(0, i as int + 1).drop_last() == s.subrange(0, i as int));
            }
            if self.registers[i].state == RegisterState::Modified {
                let mut reg = self.registers[i];
                let _ = reg.commit();
                self.registers.set(i, reg);
                committed = committed + 1;
            }
            i = i + 1;
        }
        proof {
            assert(old(self).registers@.subrange(0, i as int) == old(self).registers@);
            assert(self.registers@ == commit_each(old(self).registers@));
        }
        Ok(committed)
    }

    /// Number of registers in use.
    pub fn count(&self) -> (r: usize)
        ensures
            r == self.regs().len(),
    {
        self.registers.len()
    }
}

/// How many registers of `regs` are in the `Modified` state.
pub open spec fn count_modified(regs: Seq<ShadowRegister>) -> nat
    decreases regs.len(),
{
    if regs.len() == 0 {
        0
    } else {
        count_modified(regs.drop_last()) + if regs.last().state == RegisterState::Modified {
            1nat
        } else {
            0nat
        }
    }
}

/// `regs` with every `Modified` register committed.
pub open spec fn commit_each(regs: Seq<ShadowRegister>) -> Seq<ShadowRegister> {
    Seq::new(
        regs.len(),
        |i: int|
            if regs[i].state == RegisterState::Modified {
                regs[i].committed()
            } else {
                regs[i]
            },
    )
}

} // verus!
