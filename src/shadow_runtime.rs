//! Runtimes that own and tie together the bank, the fuse manager, the
//! synchronization manager, the ECC manager and versioned registers.

use vstd::prelude::*;
use crate::ecc_handler::{ECCManager, ECCStrategy};
use crate::error::ShadowError;
use crate::fuse_manager::{
    commit_chain, count_true, load_chain, pair_loaded, FuseBus, FuseManager, FuseMode, FuseState,
    HardwareFuse, FUSE_CAPACITY,
};
use crate::shadow_mmio::ShadowMMIOController;
use crate::shadow_register::{
    has_id, id_slot, ShadowRegister, ShadowRegisterBank, BANK_CAPACITY,
};
use crate::sync_manager::{count_ok, sync_chain, SyncDirection, SyncManager, SyncPolicy};
use crate::version_control::{pushed, restore_outcome, version_slot, holds_version, VersionEntry, VersionedShadowRegister};

verus! {

/// Number of registers a versioned runtime holds.
pub const VERSIONED_CAPACITY: usize = 64;

/// The shadow register system: a bank for direct access, a fuse manager with
/// its paired bank, synchronization and ECC.
pub struct ShadowRegisterRuntime {
    shadow_bank: ShadowRegisterBank,
    fuse_manager: FuseManager,
    sync_manager: SyncManager,
    ecc_manager: ECCManager,
    mmio_controller: Option<ShadowMMIOController>,
}

impl ShadowRegisterRuntime {
    /// Registers of the runtime's own bank.
    pub closed spec fn regs(&self) -> Seq<ShadowRegister> {
        self.shadow_bank.regs()
    }

    /// Fuses of the fuse manager.
    pub closed spec fn fuses(&self) -> Seq<HardwareFuse> {
        self.fuse_manager.fuses()
    }

    /// Shadow registers paired with the fuses.
    pub closed spec fn fuse_shadows(&self) -> Seq<ShadowRegister> {
        self.fuse_manager.shadows()
    }

    /// The ECC manager.
    pub closed spec fn ecc(&self) -> ECCManager {
        self.ecc_manager
    }

    /// The synchronization manager does not hold its exclusive flag.
    pub closed spec fn sync_idle(&self) -> bool {
        !self.sync_manager.holds_flag()
    }

    /// Whether the MMIO controller was set up.
    pub closed spec fn has_controller(&self) -> bool {
        self.mmio_controller is Some
    }

    /// Creates an empty runtime with Hamming ECC and no MMIO controller.
    pub fn new() -> (r: ShadowRegisterRuntime)
        ensures
            r.regs() == Seq::<ShadowRegister>::empty(),
            r.fuses() == Seq::<HardwareFuse>::empty(),
            r.fuse_shadows() == Seq::<ShadowRegister>::empty(),
            r.ecc().strategy_spec() == ECCStrategy::Hamming,
            r.ecc().hamming_spec().detected() == 0,
            r.ecc().hamming_spec().corrected() == 0,
            r.ecc().block_errors() == 0,
            !r.has_controller(),
            r.sync_idle(),
    {
        ShadowRegisterRuntime {
            shadow_bank: ShadowRegisterBank::new(),
            fuse_manager: FuseManager::new(),
            sync_manager: SyncManager::new(),
            ecc_manager: ECCManager::new(ECCStrategy::Hamming),
            mmio_controller: None,
        }
    }

    /// Sets up the MMIO controller.
    pub fn init(&mut self)
        ensures
            final(self).sync_idle() == old(self).sync_idle(),
            final(self).has_controller(),
            final(self).regs() == old(self).regs(),
            final(self).fuses() == old(self).fuses(),
            final(self).fuse_shadows() == old(self).fuse_shadows(),
    {
        self.mmio_controller = Some(ShadowMMIOController::new());
    }

    /// Adds a fuse and a register with id `register_id` backed by it.
    pub fn register_fuse(&mut self, register_id: u32, fuse_addr: u64, mode: FuseMode) -> (r: Result<
        (),
        ShadowError,
    >)
        ensures
            final(self).sync_idle() == old(self).sync_idle(),
            old(self).fuses().len() >= FUSE_CAPACITY ==> r == Err::<(), ShadowError>(
                ShadowError::FuseManagerFull,
            ) && final(self).regs() == old(self).regs(),
            old(self).fuses().len() < FUSE_CAPACITY ==> final(self).fuses() == old(
                self,
            ).fuses().push(HardwareFuse::initial(fuse_addr, mode)),
            old(self).fuses().len() < FUSE_CAPACITY && old(self).fuse_shadows().len() >= BANK_CAPACITY
                ==> r == Err::<(), ShadowError>(ShadowError::BankFull) && final(self).regs() == old(
                self).regs() && final(self).fuse_shadows() == old(self).fuse_shadows(),
            old(self).fuses().len() < FUSE_CAPACITY && old(self).fuse_shadows().len() < BANK_CAPACITY
                ==> (old(self).regs().len() < BANK_CAPACITY ==> r is Ok && final(self).regs() == old(
                self,
            ).regs().push(ShadowRegister::initial(register_id, fuse_addr))) && (old(self).regs().len()
                >= BANK_CAPACITY ==> r == Err::<(), ShadowError>(ShadowError::BankFull)),
    {
        match self.fuse_manager.add_fuse(fuse_addr, mode) {
            Err(e) => {
                return Err(e);
            },
            Ok(_) => {},
        }
        match self.shadow_bank.add_register(register_id, fuse_addr) {
            Err(e) => Err(e),
            Ok(_) => Ok(()),
        }
    }

    /// Loads every fuse into its paired shadow register (see `FuseManager::load_all`).
    pub fn load_from_fuses<B: FuseBus>(&mut self, bus: &mut B) -> (r: Result<usize, ShadowError>)
        ensures
            final(self).sync_idle() == old(self).sync_idle(),
            final(self).regs() == old(self).regs(),
            final(self).fuses().len() == old(self).fuses().len(),
            final(self).fuse_shadows().len() == old(self).fuse_shadows().len(),
            exists|raws: Seq<u64>|
                #![trigger load_chain(old(self).fuses(), old(self).fuse_shadows(), raws, old(self).fuses().len())]
                raws.len() == old(self).fuses().len() && ({
                    let (f, g, ok) = load_chain(
                        old(self).fuses(),
                        old(self).fuse_shadows(),
                        raws,
                        old(self).fuses().len(),
                    );
                    &&& final(self).fuses() == f
                    &&& final(self).fuse_shadows() == g
                    &&& r == Ok::<usize, ShadowError>(count_true(ok) as usize)
                    &&& forall|j: int|
                        0 <= j < ok.len() && #[trigger] ok[j] ==> pair_loaded(f, g, j)
                }),
    {
        let ghost f0 = self.fuses();
        let ghost g0 = self.fuse_shadows();
        let r = self.fuse_manager.load_all(bus);
        proof {
            let raws = choose|raws: Seq<u64>|
                #![trigger load_chain(f0, g0, raws, f0.len())]
                raws.len() == f0.len() && ({
                    let (f, g, ok) = load_chain(f0, g0, raws, f0.len());
                    &&& self.fuses() == f
                    &&& self.fuse_shadows() == g
                    &&& r == Ok::<usize, ShadowError>(count_true(ok) as usize)
                    &&& forall|j: int| 0 <= j < ok.len() && #[trigger] ok[j] ==> pair_loaded(f, g, j)
                });
            assert(raws.len() == f0.len());
        }
        r
    }

    /// Commits every paired shadow register into its fuse (see `FuseManager::commit_all`).
    pub fn commit_to_fuses<B: FuseBus>(&mut self, bus: &mut B) -> (r: Result<usize, ShadowError>)
        ensures
            final(self).sync_idle() == old(self).sync_idle(),
            final(self).regs() == old(self).regs(),
            final(self).fuses().len() == old(self).fuses().len(),
            final(self).fuse_shadows() == old(self).fuse_shadows(),
            exists|readbacks: Seq<u64>|
                #![trigger commit_chain(old(self).fuses(), old(self).fuse_shadows(), readbacks, old(self).fuses().len())]
                readbacks.len() == old(self).fuses().len() && ({
                    let (f, ok) = commit_chain(
                        old(self).fuses(),
                        old(self).fuse_shadows(),
                        readbacks,
                        old(self).fuses().len(),
                    );
                    &&& final(self).fuses() == f
                    &&& r == Ok::<usize, ShadowError>(count_true(ok) as usize)
                    &&& forall|j: int|
                        0 <= j < ok.len() && #[trigger] ok[j] ==> j < final(self).fuse_shadows().len()
                            && f[j].value == final(self).fuse_shadows()[j].value
                            && f[j].state == FuseState::Programmed
                }),
    {
        let ghost f0 = self.fuses();
        let ghost g0 = self.fuse_shadows();
        let r = self.fuse_manager.commit_all(bus);
        proof {
            let rbs = choose|readbacks: Seq<u64>|
                #![trigger commit_chain(f0, g0, readbacks, f0.len())]
                readbacks.len() == f0.len() && ({
                    let (f, ok) = commit_chain(f0, g0, readbacks, f0.len());
                    &&& self.fuses() == f
                    &&& r == Ok::<usize, ShadowError>(count_true(ok) as usize)
                    &&& forall|j: int|
                        0 <= j < ok.len() && #[trigger] ok[j] ==> j < self.fuse_shadows().len()
                            && f[j].value == self.fuse_shadows()[j].value
                            && f[j].state == FuseState::Programmed
                });
            assert(rbs.len() == f0.len());
        }
        r
    }

    /// The current value of register `register_id`, after its checksum check.
    pub fn read(&self, register_id: u32) -> (r: Result<u64, ShadowError>)
        ensures
            r == if !has_id(self.regs(), register_id) {
                Err::<u64, ShadowError>(ShadowError::RegisterNotFound)
            } else if !self.regs()[id_slot(self.regs(), register_id)].integrity_ok() {
                Err::<u64, ShadowError>(ShadowError::ChecksumMismatch)
            } else {
                Ok::<u64, ShadowError>(self.regs()[id_slot(self.regs(), register_id)].value)
            },
    {
        match self.shadow_bank.get_register(register_id) {
            Some(reg) => {
                if !reg.verify() {
                    return Err(ShadowError::ChecksumMismatch);
                }
                Ok(reg.read())
            },
            None => Err(ShadowError::RegisterNotFound),
        }
    }

    /// Stages `value` on register `register_id`.
    pub fn write(&mut self, register_id: u32, value: u64) -> (r: Result<(), ShadowError>)
        ensures
            final(self).sync_idle() == old(self).sync_idle(),
            final(self).fuses() == old(self).fuses(),
            !has_id(old(self).regs(), register_id) ==> r == Err::<(), ShadowError>(
                ShadowError::RegisterNotFound,
            ) && final(self).regs() == old(self).regs(),
            has_id(old(self).regs(), register_id) ==> ({
                let k = id_slot(old(self).regs(), register_id);
                let (reg, res) = old(self).regs()[k].write_outcome(value);
                r == res && final(self).regs() == old(self).regs().update(k, reg)
            }),
    {
        match self.shadow_bank.get_register_mut(register_id) {
            Some(reg) => {
                let (_encoded_value, _ecc) = self.ecc_manager.encode_u64(value);
                reg.write(value)
            },
            None => Err(ShadowError::RegisterNotFound),
        }
    }

    /// Commits register `register_id`.
    pub fn commit(&mut self, register_id: u32) -> (r: Result<(), ShadowError>)
        ensures
            final(self).sync_idle() == old(self).sync_idle(),
            final(self).fuses() == old(self).fuses(),
            !has_id(old(self).regs(), register_id) ==> r == Err::<(), ShadowError>(
                ShadowError::RegisterNotFound,
            ) && final(self).regs() == old(self).regs(),
            has_id(old(self).regs(), register_id) ==> ({
                let k = id_slot(old(self).regs(), register_id);
                let (reg, res) = old(self).regs()[k].commit_outcome();
                r == res && final(self).regs() == old(self).regs().update(k, reg)
            }),
    {
        match self.shadow_bank.get_register_mut(register_id) {
            Some(reg) => reg.commit(),
            None => Err(ShadowError::RegisterNotFound),
        }
    }

    /// Synchronizes every fuse slot and returns how many succeeded.
    pub fn sync<B: FuseBus>(&mut self, bus: &mut B, direction: SyncDirection, policy: SyncPolicy) -> (r:
        Result<usize, ShadowError>)
        ensures
            final(self).sync_idle() == old(self).sync_idle(),
            final(self).regs() == old(self).regs(),
            final(self).fuses().len() == old(self).fuses().len(),
            r matches Ok(n) && n <= old(self).fuses().len(),
            !old(self).sync_idle() ==> r == Ok::<usize, ShadowError>(0) && final(self).fuses() == old(
                self).fuses() && final(self).fuse_shadows() == old(self).fuse_shadows(),
            old(self).sync_idle() ==> exists|raws: Seq<u64>, seconds: Seq<u64>|
                #![trigger sync_chain(old(self).fuses(), old(self).fuse_shadows(), direction, policy, raws, seconds, old(self).fuses().len())]
                raws.len() == old(self).fuses().len() && seconds.len() == old(self).fuses().len()
                    && ({
                    let (f, g, results) = sync_chain(
                        old(self).fuses(),
                        old(self).fuse_shadows(),
                        direction,
                        policy,
                        raws,
                        seconds,
                        old(self).fuses().len(),
                    );
                    &&& final(self).fuses() == f
                    &&& final(self).fuse_shadows() == g
                    &&& r == Ok::<usize, ShadowError>(count_ok(results) as usize)
                }),
    {
        let ghost f0 = self.fuses();
        let ghost g0 = self.fuse_shadows();
        let result = self.sync_manager.sync_all(&mut self.fuse_manager, bus, direction, policy);
        proof {
            if old(self).sync_idle() {
                let (raws, seconds) = choose|raws: Seq<u64>, seconds: Seq<u64>|
                    #![trigger sync_chain(f0, g0, direction, policy, raws, seconds, f0.len())]
                    raws.len() == f0.len() && seconds.len() == f0.len() && ({
                        let (f, g, results) = sync_chain(f0, g0, direction, policy, raws, seconds, f0.len());
                        &&& self.fuses() == f
                        &&& self.fuse_shadows() == g
                        &&& result.synced_count == count_ok(results)
                    });
                assert(raws.len() == f0.len());
            }
        }
        Ok(result.synced_count)
    }

    /// Whether every register of the runtime's bank passes its checksum check.
    pub fn verify_all(&self) -> (r: bool)
        ensures
            r == (forall|i: int| 0 <= i < self.regs().len() ==> #[trigger] self.regs()[i].integrity_ok()),
    {
        let r = self.shadow_bank.verify_all();
        proof {
            let s = self.shadow_bank.regs();
            assert(self.regs() == s);
            if r {
                assert forall|i: int| 0 <= i < self.regs().len() implies #[trigger] self.regs()[i].integrity_ok() by {
                    assert(s[i].integrity_ok());
                }
            } else {
                let i = choose|i: int| 0 <= i < s.len() && !s[i].integrity_ok();
                assert(!self.regs()[i].integrity_ok());
            }
        }
        r
    }

    /// `(detected, corrected)` ECC counters.
    pub fn get_ecc_stats(&self) -> (r: (u32, u32))
        ensures
            r == (self.ecc().hamming_spec().detected().wrapping_add(self.ecc().block_errors()),
            self.ecc().hamming_spec().corrected()),
    {
        self.ecc_manager.get_total_errors()
    }

    /// The runtime's bank.
    pub fn get_shadow_bank(&self) -> (r: &ShadowRegisterBank)
        ensures
            r.regs() == self.regs(),
    {
        &self.shadow_bank
    }

    /// The runtime's bank, for modification.
    pub fn get_shadow_bank_mut(&mut self) -> (r: &mut ShadowRegisterBank)
        ensures
            final(self).sync_idle() == old(self).sync_idle(),
            r.regs() == old(self).regs(),
            final(self).regs() == final(r).regs(),
            final(self).fuses() == old(self).fuses(),
            final(self).fuse_shadows() == old(self).fuse_shadows(),
    {
        &mut self.shadow_bank
    }

    /// The fuse manager.
    pub fn get_fuse_manager(&self) -> (r: &FuseManager)
        ensures
            r.fuses() == self.fuses(),
            r.shadows() == self.fuse_shadows(),
    {
        &self.fuse_manager
    }

    /// The fuse manager, for modification.
    pub fn get_fuse_manager_mut(&mut self) -> (r: &mut FuseManager)
        ensures
            final(self).sync_idle() == old(self).sync_idle(),
            r.fuses() == old(self).fuses(),
            r.shadows() == old(self).fuse_shadows(),
            final(self).fuses() == final(r).fuses(),
            final(self).fuse_shadows() == final(r).shadows(),
            final(self).regs() == old(self).regs(),
    {
        &mut self.fuse_manager
    }

    /// The MMIO controller, once set up.
    pub fn get_mmio_controller(&self) -> (r: Option<&ShadowMMIOController>)
        ensures
            r is Some == self.has_controller(),
    {
        match &self.mmio_controller {
            Some(c) => Some(c),
            None => None,
        }
    }

    /// The MMIO controller, once set up, for modification.
    pub fn get_mmio_controller_mut(&mut self) -> (r: Option<&mut ShadowMMIOController>)
        ensures
            final(self).sync_idle() == old(self).sync_idle(),
            r is Some == old(self).has_controller(),
            final(self).has_controller() == old(self).has_controller(),
            final(self).regs() == old(self).regs(),
            final(self).fuses() == old(self).fuses(),
            final(self).fuse_shadows() == old(self).fuse_shadows(),
    {
        match &mut self.mmio_controller {
            Some(c) => Some(c),
            None => None,
        }
    }
}

/// A bounded set of versioned registers with a tick counter that stamps each
/// versioned write.
pub struct VersionedShadowRuntime {
    registers: Vec<VersionedShadowRegister>,
    ecc_manager: ECCManager,
    ticks: u32,
}

impl VersionedShadowRuntime {
    /// The registers in slot order.
    pub closed spec fn vregs(&self) -> Seq<VersionedShadowRegister> {
        self.registers@
    }

    /// Timestamp the next versioned write receives.
    pub closed spec fn clock(&self) -> u32 {
        self.ticks
    }

    /// Creates an empty runtime.
    pub fn new() -> (r: VersionedShadowRuntime)
        ensures
            r.vregs() == Seq::<VersionedShadowRegister>::empty(),
            r.clock() == 0,
    {
        VersionedShadowRuntime {
            registers: Vec::new(),
            ecc_manager: ECCManager::new(ECCStrategy::Hamming),
            ticks: 0,
        }
    }

    /// Number of registers.
    pub fn count(&self) -> (r: usize)
        ensures
            r == self.vregs().len(),
    {
        self.registers.len()
    }

    /// Adds a register in the next free slot and returns the slot.
    pub fn add_register(&mut self, id: u32, fuse_addr: u64) -> (r: Result<usize, ShadowError>)
        ensures
            final(self).clock() == old(self).clock(),
            old(self).vregs().len() >= VERSIONED_CAPACITY ==> r == Err::<usize, ShadowError>(
                ShadowError::RuntimeFull,
            ) && final(self).vregs() == old(self).vregs(),
            old(self).vregs().len() < VERSIONED_CAPACITY ==> r == Ok::<usize, ShadowError>(
                old(self).vregs().len() as usize,
            ) && final(self).vregs().len() == old(self).vregs().len() + 1
                && final(self).vregs().take(old(self).vregs().len() as int) == old(self).vregs()
                && final(self).vregs().last().reg() == ShadowRegister::initial(id, fuse_addr)
                && final(self).vregs().last().hist().held() == Seq::<VersionEntry>::empty()
                && final(self).vregs().last().hist().counter() == 0,
    {
        if self.registers.len() >= VERSIONED_CAPACITY {
            return Err(ShadowError::RuntimeFull);
        }
        let index = self.registers.len();
        self.registers.push(VersionedShadowRegister::new(id, fuse_addr));
        proof {
            assert(self.vregs().take(old(self).vregs().len() as int) =~= old(self).vregs());
        }
        Ok(index)
    }

    /// Writes `value` to register `index` with versioning, stamped with the
    /// runtime's tick counter, which then advances.
    pub fn write_versioned(&mut self, index: usize, value: u64) -> (r: Result<u32, ShadowError>)
        ensures
            index >= old(self).vregs().len() ==> r == Err::<u32, ShadowError>(
                ShadowError::InvalidRegisterIndex,
            ) && final(self).vregs() == old(self).vregs() && final(self).clock() == old(self).clock(),
            index < old(self).vregs().len() ==> ({
                let v = old(self).vregs()[index as int];
                &&& final(self).clock() == old(self).clock().wrapping_add(1)
                &&& final(self).vregs().len() == old(self).vregs().len()
                &&& forall|j: int| 0 <= j < old(self).vregs().len() && j != index ==> #[trigger] final(self).vregs()[j] == old(self).vregs()[j]
                &&& match v.reg().write_error() {
                    Some(e) => r == Err::<u32, ShadowError>(e) && final(self).vregs()[index as int].reg() == v.reg()
                        && final(self).vregs()[index as int].hist() == v.hist(),
                    None => r == Ok::<u32, ShadowError>(v.hist().counter())
                        && final(self).vregs()[index as int].reg() == v.reg().staged(value)
                        && final(self).vregs()[index as int].hist().counter() == v.hist().counter().wrapping_add(1)
                        && final(self).vregs()[index as int].hist().held() == pushed(
                        v.hist().held(),
                        VersionEntry::snapshot(v.hist().counter(), value, old(self).clock() as u64),
                    ),
                }
            }),
    {
        if index >= self.registers.len() {
            return Err(ShadowError::InvalidRegisterIndex);
        }
        let timestamp = self.ticks as u64;
        let r = self.registers[index].write_versioned(value, timestamp);
        self.ticks = self.ticks.wrapping_add(1);
        r
    }

    /// Rolls register `index` back to `version` (see
    /// `VersionedShadowRegister::rollback_to_version`).
    pub fn rollback_to_version(&mut self, index: usize, version: u32) -> (r: Result<(), ShadowError>)
        ensures
            final(self).clock() == old(self).clock(),
            final(self).vregs().len() == old(self).vregs().len(),
            index >= old(self).vregs().len() ==> r == Err::<(), ShadowError>(
                ShadowError::InvalidRegisterIndex,
            ) && final(self).vregs() == old(self).vregs(),
            index < old(self).vregs().len() ==> ({
                let v = old(self).vregs()[index as int];
                let held = v.hist().held();
                &&& forall|j: int| 0 <= j < old(self).vregs().len() && j != index ==> #[trigger] final(self).vregs()[j] == old(self).vregs()[j]
                &&& final(self).vregs()[index as int].hist() == v.hist()
                &&& !holds_version(held, version) ==> r == Err::<(), ShadowError>(ShadowError::VersionNotFound)
                    && final(self).vregs()[index as int].reg() == v.reg()
                &&& holds_version(held, version) ==> (final(self).vregs()[index as int].reg(), r)
                    == restore_outcome(v.reg(), held[version_slot(held, version)])
            }),
    {
        if index >= self.registers.len() {
            return Err(ShadowError::InvalidRegisterIndex);
        }
        self.registers[index].rollback_to_version(version)
    }

    /// Rolls register `index` back by `offset` versions (see
    /// `VersionedShadowRegister::rollback_by_offset`).
    pub fn rollback_by_offset(&mut self, index: usize, offset: usize) -> (r: Result<(), ShadowError>)
        ensures
            final(self).clock() == old(self).clock(),
            final(self).vregs().len() == old(self).vregs().len(),
            index >= old(self).vregs().len() ==> r == Err::<(), ShadowError>(
                ShadowError::InvalidRegisterIndex,
            ) && final(self).vregs() == old(self).vregs(),
            index < old(self).vregs().len() ==> ({
                let v = old(self).vregs()[index as int];
                let held = v.hist().held();
                &&& forall|j: int| 0 <= j < old(self).vregs().len() && j != index ==> #[trigger] final(self).vregs()[j] == old(self).vregs()[j]
                &&& final(self).vregs()[index as int].hist() == v.hist()
                &&& offset >= held.len() ==> r == Err::<(), ShadowError>(ShadowError::OffsetOutOfRange)
                    && final(self).vregs()[index as int].reg() == v.reg()
                &&& offset < held.len() ==> (final(self).vregs()[index as int].reg(), r)
                    == restore_outcome(v.reg(), held[offset as int])
            }),
    {
        if index >= self.registers.len() {
            return Err(ShadowError::InvalidRegisterIndex);
        }
        self.registers[index].rollback_by_offset(offset)
    }

    /// The register in slot `index`.
    pub fn get_register(&self, index: usize) -> (r: Option<&VersionedShadowRegister>)
        ensures
            match r {
                Some(v) => index < self.vregs().len() && *v == self.vregs()[index as int],
                None => index >= self.vregs().len(),
            },
    {
        if index < self.registers.len() {
            Some(&self.registers[index])
        } else {
            None
        }
    }

    /// The register in slot `index`, for modification.
    pub fn get_register_mut(&mut self, index: usize) -> (r: Option<&mut VersionedShadowRegister>)
        ensures
            final(self).clock() == old(self).clock(),
            match r {
                Some(v) => index < old(self).vregs().len() && *v == old(self).vregs()[index as int]
                    && final(self).vregs() == old(self).vregs().update(index as int, *final(v)),
                None => index >= old(self).vregs().len() && final(self).vregs() == old(self).vregs(),
            },
    {
        if index < self.registers.len() {
            Some(&mut self.registers[index])
        } else {
            None
        }
    }
}

} // verus!
