//! Reconciliation between fuses and shadow registers, one operation at a time
//! under an exclusive, fail-fast flag.

use vstd::prelude::*;
use crate::error::ShadowError;
use crate::fuse_manager::{
    commit_outcome, lemma_fuse_error_kinds, load_outcome, FuseBus, FuseManager, FuseState, HardwareFuse,
};
use crate::shadow_register::{has_id, id_slot, RegisterState, ShadowRegister};

verus! {

/// Which way values flow.
#[derive(Debug, Clone, Copy, PartialEq, Eq, Structural)]
pub enum SyncDirection {
    /// Fuse to shadow register.
    FuseToShadow,
    /// Shadow register to fuse.
    ShadowToFuse,
    /// Shadow to active value (done by `commit`; nothing to do here).
    ShadowToActive,
    /// Active value to shadow (done by `write`; nothing to do here).
    ActiveToShadow,
    /// Reconcile both sides.
    Bidirectional,
}

/// How the destination and conflicts are treated.
#[derive(Debug, Clone, Copy, PartialEq, Eq, Structural)]
pub enum SyncPolicy {
    /// Always overwrite the destination; the shadow wins conflicts.
    ForceOverwrite,
    /// Only fill an uninitialized destination.
    InitializeOnly,
    /// Versions would have to match; conflicts are reported.
    VersionChecked,
    /// A shadow that was ever written wins, otherwise the fuse wins.
    ConflictResolve,
}

/// State of the manager.
#[derive(Debug, Clone, Copy, PartialEq, Eq, Structural)]
pub enum SyncStatus {
    /// Nothing happened since the last reset.
    Idle,
    /// A synchronization holds the flag.
    InProgress,
    /// The last synchronization succeeded.
    Success,
    /// The last synchronization failed.
    Failed,
    /// Conflicts were left unresolved.
    Conflict,
}

/// Tally of a synchronization over all fuses.
#[derive(Debug)]
pub struct SyncResult {
    /// Aggregate status.
    pub status: SyncStatus,
    /// Slots synchronized.
    pub synced_count: usize,
    /// Slots that failed for a reason other than a conflict.
    pub failed_count: usize,
    /// Slots left in conflict.
    pub conflict_count: usize,
}

/// Fuses, shadows and result of a fuse-to-shadow synchronization of `id`
/// when the fuse word `raw` is read.
pub open spec fn fuse_to_shadow_outcome(
    fuses: Seq<HardwareFuse>,
    regs: Seq<ShadowRegister>,
    id: u32,
    policy: SyncPolicy,
    raw: u64,
) -> (Seq<HardwareFuse>, Seq<ShadowRegister>, Result<(), ShadowError>) {
    if !has_id(regs, id) {
        (fuses, regs, Ok(()))
    } else if policy == SyncPolicy::InitializeOnly && regs[id_slot(regs, id)].state
        != RegisterState::Uninitialized {
        (fuses, regs, Ok(()))
    } else {
        load_outcome(fuses, regs, id as int, raw)
    }
}

/// Fuses, shadows and result of a shadow-to-fuse synchronization of `id` when
/// `readback` is read back after programming.
pub open spec fn shadow_to_fuse_outcome(
    fuses: Seq<HardwareFuse>,
    regs: Seq<ShadowRegister>,
    id: u32,
    policy: SyncPolicy,
    readback: u64,
) -> (Seq<HardwareFuse>, Seq<ShadowRegister>, Result<(), ShadowError>) {
    if !has_id(regs, id) {
        (fuses, regs, Ok(()))
    } else if policy == SyncPolicy::InitializeOnly && (id as int) < fuses.len() && fuses[id as int].state_spec()
        != FuseState::Virgin {
        (fuses, regs, Ok(()))
    } else {
        let (fs, r) = commit_outcome(fuses, regs, id as int, readback);
        (fs, regs, r)
    }
}

/// Fuses, shadows and result of a bidirectional synchronization of `id`: the
/// fuse word `raw` is read first; `second` is what the resolving load or
/// program step reads.
pub open spec fn bidirectional_outcome(
    fuses: Seq<HardwareFuse>,
    regs: Seq<ShadowRegister>,
    id: u32,
    policy: SyncPolicy,
    raw: u64,
    second: u64,
) -> (Seq<HardwareFuse>, Seq<ShadowRegister>, Result<(), ShadowError>) {
    let i = id as int;
    if i >= fuses.len() {
        (fuses, regs, Err(ShadowError::FuseNotFound))
    } else {
        let (f1, rr) = fuses[i].read_outcome(raw);
        let fs = fuses.update(i, f1);
        match rr {
            Err(e) => (fs, regs, Err(e)),
            Ok(fuse_value) => if !has_id(regs, id) {
                (fs, regs, Err(ShadowError::ShadowNotFound))
            } else if fuse_value == regs[id_slot(regs, id)].value {
                (fs, regs, Ok(()))
            } else if policy == SyncPolicy::ForceOverwrite || (policy == SyncPolicy::ConflictResolve
                && regs[id_slot(regs, id)].version > 0) {
                let (fs2, r) = commit_outcome(fs, regs, i, second);
                (fs2, regs, r)
            } else if policy == SyncPolicy::ConflictResolve {
                load_outcome(fs, regs, i, second)
            } else {
                (fs, regs, Err(ShadowError::SyncConflict))
            },
        }
    }
}

/// Fuses, shadows and result of synchronizing `id`, for the words `raw` and
/// `second` that the bus hands back.
pub open spec fn sync_outcome(
    fuses: Seq<HardwareFuse>,
    regs: Seq<ShadowRegister>,
    id: u32,
    direction: SyncDirection,
    policy: SyncPolicy,
    raw: u64,
    second: u64,
) -> (Seq<HardwareFuse>, Seq<ShadowRegister>, Result<(), ShadowError>) {
    match direction {
        SyncDirection::FuseToShadow => fuse_to_shadow_outcome(fuses, regs, id, policy, raw),
        SyncDirection::ShadowToFuse => shadow_to_fuse_outcome(fuses, regs, id, policy, raw),
        SyncDirection::Bidirectional => bidirectional_outcome(fuses, regs, id, policy, raw, second),
        _ => (fuses, regs, Ok(())),
    }
}

/// Aggregate status of a run over all fuses.
pub open spec fn aggregate_status(synced: nat, failed: nat, conflicts: nat) -> SyncStatus {
    if failed == 0 && conflicts == 0 {
        SyncStatus::Success
    } else if synced == 0 {
        SyncStatus::Failed
    } else {
        SyncStatus::Conflict
    }
}

proof fn lemma_outcome_lengths(
    fuses: Seq<HardwareFuse>,
    regs: Seq<ShadowRegister>,
    id: u32,
    direction: SyncDirection,
    policy: SyncPolicy,
    raw: u64,
    second: u64,
)
    ensures
        sync_outcome(fuses, regs, id, direction, policy, raw, second).0.len() == fuses.len(),
        sync_outcome(fuses, regs, id, direction, policy, raw, second).1.len() == regs.len(),
{
}

proof fn lemma_sync_never_busy(
    fuses: Seq<HardwareFuse>,
    regs: Seq<ShadowRegister>,
    id: u32,
    direction: SyncDirection,
    policy: SyncPolicy,
)
    ensures
        forall|raw: u64, second: u64|
            #[trigger] sync_outcome(fuses, regs, id, direction, policy, raw, second).2
                != Err::<(), ShadowError>(ShadowError::SyncInProgress),
{
    lemma_fuse_error_kinds();
}

/// Fuses, shadows and per-slot results after synchronizing slots `0..n` in
/// order, slot `j` with the bus words `raws[j]` and `seconds[j]`.
pub open spec fn sync_chain(
    fuses: Seq<HardwareFuse>,
    regs: Seq<ShadowRegister>,
    direction: SyncDirection,
    policy: SyncPolicy,
    raws: Seq<u64>,
    seconds: Seq<u64>,
    n: nat,
) -> (Seq<HardwareFuse>, Seq<ShadowRegister>, Seq<Result<(), ShadowError>>)
    decreases n,
{
    if n == 0 {
        (fuses, regs, Seq::empty())
    } else {
        let (f, g, results) = sync_chain(fuses, regs, direction, policy, raws, seconds, (n - 1) as nat);
        let (f2, g2, res) = sync_outcome(
            f,
            g,
            (n - 1) as u32,
            direction,
            policy,
            raws[n - 1],
            seconds[n - 1],
        );
        (f2, g2, results.push(res))
    }
}

proof fn lemma_sync_chain_prefix(
    fuses: Seq<HardwareFuse>,
    regs: Seq<ShadowRegister>,
    direction: SyncDirection,
    policy: SyncPolicy,
    a: Seq<u64>,
    b: Seq<u64>,
    c: Seq<u64>,
    d: Seq<u64>,
    n: nat,
)
    requires
        n <= a.len(),
        n <= b.len(),
        n <= c.len(),
        n <= d.len(),
        forall|j: int| 0 <= j < n ==> a[j] == c[j] && b[j] == d[j],
    ensures
        sync_chain(fuses, regs, direction, policy, a, b, n) == sync_chain(
            fuses,
            regs,
            direction,
            policy,
            c,
            d,
            n,
        ),
    decreases n,
{
    if n > 0 {
        lemma_sync_chain_prefix(fuses, regs, direction, policy, a, b, c, d, (n - 1) as nat);
    }
}

/// Number of successful results.
pub open spec fn count_ok(results: Seq<Result<(), ShadowError>>) -> nat
    decreases results.len(),
{
    if results.len() == 0 {
        0
    } else {
        count_ok(results.drop_last()) + if results.last() is Ok {
            1nat
        } else {
            0nat
        }
    }
}

/// Number of results that are unresolved conflicts.
pub open spec fn count_conflicts(results: Seq<Result<(), ShadowError>>) -> nat
    decreases results.len(),
{
    if results.len() == 0 {
        0
    } else {
        count_conflicts(results.drop_last()) + if results.last() == Err::<(), ShadowError>(
            ShadowError::SyncConflict,
        ) {
            1nat
        } else {
            0nat
        }
    }
}

/// `c` advanced by one, `k` times, modulo 2^32.
pub open spec fn bump(c: u32, k: nat) -> u32
    decreases k,
{
    if k == 0 {
        c
    } else {
        bump(c, (k - 1) as nat).wrapping_add(1)
    }
}

/// Runs synchronizations one at a time: a second one is refused while the
/// exclusive flag is held.
pub struct SyncManager {
    status: SyncStatus,
    syncing: bool,
    sync_count: u32,
}

impl SyncManager {
    /// Current status.
    pub closed spec fn status_spec(&self) -> SyncStatus {
        self.status
    }

    /// The exclusive flag is held.
    pub closed spec fn holds_flag(&self) -> bool {
        self.syncing
    }

    /// Successful synchronizations so far (modulo 2^32).
    pub closed spec fn count_spec(&self) -> u32 {
        self.sync_count
    }

    /// Creates an idle manager.
    pub fn new() -> (r: SyncManager)
        ensures
            r.status_spec() == SyncStatus::Idle,
            !r.holds_flag(),
            r.count_spec() == 0,
    {
        SyncManager { status: SyncStatus::Idle, syncing: false, sync_count: 0 }
    }

    /// Takes the exclusive flag, or fails at once if it is held.
    pub fn try_acquire(&mut self) -> (r: Result<(), ShadowError>)
        ensures
            old(self).holds_flag() ==> r == Err::<(), ShadowError>(ShadowError::SyncInProgress)
                && *final(self) == *old(self),
            !old(self).holds_flag() ==> r is Ok && final(self).holds_flag()
                && final(self).status_spec() == SyncStatus::InProgress && final(self).count_spec()
                == old(self).count_spec(),
    {
        if self.syncing {
            return Err(ShadowError::SyncInProgress);
        }
        self.syncing = true;
        self.status = SyncStatus::InProgress;
        Ok(())
    }

    /// Records the outcome of a synchronization and releases the flag.
    pub fn release(&mut self, succeeded: bool)
        ensures
            !final(self).holds_flag(),
            succeeded ==> final(self).status_spec() == SyncStatus::Success
                && final(self).count_spec() == old(self).count_spec().wrapping_add(1),
            !succeeded ==> final(self).status_spec() == SyncStatus::Failed
                && final(self).count_spec() == old(self).count_spec(),
    {
        if succeeded {
            self.status = SyncStatus::Success;
            self.sync_count = self.sync_count.wrapping_add(1);
        } else {
            self.status = SyncStatus::Failed;
        }
        self.syncing = false;
    }

    fn sync_fuse_to_shadow<B: FuseBus>(
        &self,
        fuse_manager: &mut FuseManager,
        bus: &mut B,
        register_id: u32,
        policy: SyncPolicy,
    ) -> (r: Result<(), ShadowError>)
        ensures
            exists|raw: u64|
                (final(fuse_manager).fuses(), final(fuse_manager).shadows(), r)
                    == fuse_to_shadow_outcome(
                    old(fuse_manager).fuses(),
                    old(fuse_manager).shadows(),
                    register_id,
                    policy,
                    raw,
                ),
    {
        let skip = match fuse_manager.get_shadow_bank().get_register(register_id) {
            Some(shadow_reg) => policy == SyncPolicy::InitializeOnly && shadow_reg.get_state()
                != RegisterState::Uninitialized,
            None => true,
        };
        if skip {
            assert((fuse_manager.fuses(), fuse_manager.shadows(), Ok::<(), ShadowError>(()))
                == fuse_to_shadow_outcome(
                old(fuse_manager).fuses(),
                old(fuse_manager).shadows(),
                register_id,
                policy,
                0,
            ));
            return Ok(());
        }
        let r = fuse_manager.load_to_shadow(bus, register_id as usize);
        proof {
            let raw = choose|raw: u64|
                (fuse_manager.fuses(), fuse_manager.shadows(), r) == load_outcome(
                    old(fuse_manager).fuses(),
                    old(fuse_manager).shadows(),
                    register_id as int,
                    raw,
                );
            assert((fuse_manager.fuses(), fuse_manager.shadows(), r) == fuse_to_shadow_outcome(
                old(fuse_manager).fuses(),
                old(fuse_manager).shadows(),
                register_id,
                policy,
                raw,
            ));
        }
        r
    }

    fn sync_shadow_to_fuse<B: FuseBus>(
        &self,
        fuse_manager: &mut FuseManager,
        bus: &mut B,
        register_id: u32,
        policy: SyncPolicy,
    ) -> (r: Result<(), ShadowError>)
        ensures
            exists|readback: u64|
                (final(fuse_manager).fuses(), final(fuse_manager).shadows(), r)
                    == shadow_to_fuse_outcome(
                    old(fuse_manager).fuses(),
                    old(fuse_manager).shadows(),
                    register_id,
                    policy,
                    readback,
                ),
    {
        let found = fuse_manager.get_shadow_bank().get_register(register_id).is_some();
        let mut skip = !found;
        if found && policy == SyncPolicy::InitializeOnly {
            match fuse_manager.get_fuse(register_id as usize) {
                Some(fuse) => {
                    if !fuse.is_virgin() {
                        skip = true;
                    }
                },
                None => {},
            }
        }
        if skip {
            assert((fuse_manager.fuses(), fuse_manager.shadows(), Ok::<(), ShadowError>(()))
                == shadow_to_fuse_outcome(
                old(fuse_manager).fuses(),
                old(fuse_manager).shadows(),
                register_id,
                policy,
                0,
            ));
            return Ok(());
        }
        let r = fuse_manager.commit_to_fuse(bus, register_id as usize);
        proof {
            let rb = choose|rb: u64|
                (fuse_manager.fuses(), r) == commit_outcome(
                    old(fuse_manager).fuses(),
                    old(fuse_manager).shadows(),
                    register_id as int,
                    rb,
                );
            assert((fuse_manager.fuses(), fuse_manager.shadows(), r) == shadow_to_fuse_outcome(
                old(fuse_manager).fuses(),
                old(fuse_manager).shadows(),
                register_id,
                policy,
                rb,
            ));
        }
        r
    }

    fn sync_bidirectional<B: FuseBus>(
        &self,
        fuse_manager: &mut FuseManager,
        bus: &mut B,
        register_id: u32,
        policy: SyncPolicy,
    ) -> (r: Result<(), ShadowError>)
        ensures
            exists|raw: u64, second: u64|
                (final(fuse_manager).fuses(), final(fuse_manager).shadows(), r)
                    == bidirectional_outcome(
                    old(fuse_manager).fuses(),
                    old(fuse_manager).shadows(),
                    register_id,
                    policy,
                    raw,
                    second,
                ),
    {
        let ghost fuses0 = fuse_manager.fuses();
        let ghost regs = fuse_manager.shadows();
        let ghost i = register_id as int;
        let index = register_id as usize;
        let fuse_value = match fuse_manager.get_fuse_mut(index) {
            Some(fuse) => {
                let ghost f0 = *fuse;
                let res = fuse.read_from_hardware(bus);
                proof {
                    let raw = choose|raw: u64| (*fuse, res) == f0.read_outcome(raw);
                    assert((*fuse, res) == f0.read_outcome(raw));
                }
                match res {
                    Ok(v) => v,
                    Err(e) => {
                        proof {
                            let raw = choose|raw: u64| (fuse_manager.fuses()[i], Err::<u64, ShadowError>(e)) == fuses0[i].read_outcome(raw);
                            assert((fuse_manager.fuses(), fuse_manager.shadows(), Err::<(), ShadowError>(e))
                                == bidirectional_outcome(fuses0, regs, register_id, policy, raw, 0));
                        }
                        return Err(e);
                    },
                }
            },
            None => {
                assert((fuse_manager.fuses(), fuse_manager.shadows(), Err::<(), ShadowError>(ShadowError::FuseNotFound))
                    == bidirectional_outcome(fuses0, regs, register_id, policy, 0, 0));
                return Err(ShadowError::FuseNotFound);
            },
        };
        let ghost raw = choose|raw: u64| (fuse_manager.fuses()[i], Ok::<u64, ShadowError>(fuse_value)) == fuses0[i].read_outcome(raw);
        let ghost fuses1 = fuse_manager.fuses();
        assert(fuses1 == fuses0.update(i, fuses0[i].read_outcome(raw).0));
        let (shadow_value, shadow_version) = match fuse_manager.get_shadow_bank().get_register(register_id) {
            Some(shadow_reg) => (shadow_reg.read(), shadow_reg.get_version()),
            None => {
                assert((fuse_manager.fuses(), fuse_manager.shadows(), Err::<(), ShadowError>(ShadowError::ShadowNotFound))
                    == bidirectional_outcome(fuses0, regs, register_id, policy, raw, 0));
                return Err(ShadowError::ShadowNotFound);
            },
        };
        if fuse_value == shadow_value {
            assert((fuse_manager.fuses(), fuse_manager.shadows(), Ok::<(), ShadowError>(()))
                == bidirectional_outcome(fuses0, regs, register_id, policy, raw, 0));
            return Ok(());
        }
        if policy == SyncPolicy::ForceOverwrite || (policy == SyncPolicy::ConflictResolve
            && shadow_version > 0) {
            let r = fuse_manager.commit_to_fuse(bus, index);
            proof {
                let rb = choose|rb: u64| (fuse_manager.fuses(), r) == commit_outcome(fuses1, regs, i, rb);
                assert((fuse_manager.fuses(), fuse_manager.shadows(), r)
                    == bidirectional_outcome(fuses0, regs, register_id, policy, raw, rb));
            }
            return r;
        }
        if policy == SyncPolicy::ConflictResolve {
            let r = fuse_manager.load_to_shadow(bus, index);
            proof {
                let w = choose|w: u64| (fuse_manager.fuses(), fuse_manager.shadows(), r) == load_outcome(fuses1, regs, i, w);
                assert((fuse_manager.fuses(), fuse_manager.shadows(), r)
                    == bidirectional_outcome(fuses0, regs, register_id, policy, raw, w));
            }
            return r;
        }
        assert((fuse_manager.fuses(), fuse_manager.shadows(), Err::<(), ShadowError>(ShadowError::SyncConflict))
            == bidirectional_outcome(fuses0, regs, register_id, policy, raw, 0));
        Err(ShadowError::SyncConflict)
    }

    /// Synchronizes register `register_id` in `direction` under `policy`.
    ///
    /// Fails at once with `SyncInProgress`, changing nothing, while the
    /// exclusive flag is held. Otherwise the flag is taken for the operation
    /// and released after it, and the status records success or failure.
    pub fn sync_register<B: FuseBus>(
        &mut self,
        fuse_manager: &mut FuseManager,
        bus: &mut B,
        register_id: u32,
        direction: SyncDirection,
        policy: SyncPolicy,
    ) -> (r: Result<(), ShadowError>)
        ensures
            old(self).holds_flag() ==> r == Err::<(), ShadowError>(ShadowError::SyncInProgress)
                && *final(self) == *old(self) && final(fuse_manager).fuses() == old(
                fuse_manager,
            ).fuses() && final(fuse_manager).shadows() == old(fuse_manager).shadows(),
            !old(self).holds_flag() ==> r != Err::<(), ShadowError>(ShadowError::SyncInProgress),
            !old(self).holds_flag() ==> exists|raw: u64, second: u64|
                (final(fuse_manager).fuses(), final(fuse_manager).shadows(), r) == sync_outcome(
                    old(fuse_manager).fuses(),
                    old(fuse_manager).shadows(),
                    register_id,
                    direction,
                    policy,
                    raw,
                    second,
                ),
            !old(self).holds_flag() ==> !final(self).holds_flag(),
            !old(self).holds_flag() && r is Ok ==> final(self).status_spec() == SyncStatus::Success
                && final(self).count_spec() == old(self).count_spec().wrapping_add(1),
            !old(self).holds_flag() && r is Err ==> final(self).status_spec() == SyncStatus::Failed
                && final(self).count_spec() == old(self).count_spec(),
    {
        match self.try_acquire() {
            Err(e) => {
                return Err(e);
            },
            Ok(()) => {},
        }
        let ghost fuses0 = fuse_manager.fuses();
        let ghost regs0 = fuse_manager.shadows();
        proof {
            lemma_sync_never_busy(fuses0, regs0, register_id, direction, policy);
        }
        let result = match direction {
            SyncDirection::FuseToShadow => {
                let r = self.sync_fuse_to_shadow(fuse_manager, bus, register_id, policy);
                proof {
                    let raw = choose|raw: u64| (fuse_manager.fuses(), fuse_manager.shadows(), r)
                        == fuse_to_shadow_outcome(fuses0, regs0, register_id, policy, raw);
                    assert((fuse_manager.fuses(), fuse_manager.shadows(), r)
                        == sync_outcome(fuses0, regs0, register_id, direction, policy, raw, 0));
                    assert(sync_outcome(fuses0, regs0, register_id, direction, policy, raw, 0).2 != Err::<(), ShadowError>(ShadowError::SyncInProgress));
                }
                r
            },
            SyncDirection::ShadowToFuse => {
                let r = self.sync_shadow_to_fuse(fuse_manager, bus, register_id, policy);
                proof {
                    let rb = choose|rb: u64| (fuse_manager.fuses(), fuse_manager.shadows(), r)
                        == shadow_to_fuse_outcome(fuses0, regs0, register_id, policy, rb);
                    assert((fuse_manager.fuses(), fuse_manager.shadows(), r)
                        == sync_outcome(fuses0, regs0, register_id, direction, policy, rb, 0));
                    assert(sync_outcome(fuses0, regs0, register_id, direction, policy, rb, 0).2 != Err::<(), ShadowError>(ShadowError::SyncInProgress));
                }
                r
            },
            SyncDirection::Bidirectional => {
                let r = self.sync_bidirectional(fuse_manager, bus, register_id, policy);
                proof {
                    let (raw, second) = choose|raw: u64, second: u64| (fuse_manager.fuses(), fuse_manager.shadows(), r)
                        == bidirectional_outcome(fuses0, regs0, register_id, policy, raw, second);
                    assert((fuse_manager.fuses(), fuse_manager.shadows(), r)
                        == sync_outcome(fuses0, regs0, register_id, direction, policy, raw, second));
                    assert(sync_outcome(fuses0, regs0, register_id, direction, policy, raw, second).2 != Err::<(), ShadowError>(ShadowError::SyncInProgress));
                }
                r
            },
            _ => {
                assert((fuse_manager.fuses(), fuse_manager.shadows(), Ok::<(), ShadowError>(()))
                    == sync_outcome(fuses0, regs0, register_id, direction, policy, 0, 0));
                Ok(())
            },
        };
        self.release(result.is_ok());
        result
    }

    /// Synchronizes every fuse slot in turn and tallies the outcomes.
    pub fn sync_all<B: FuseBus>(
        &mut self,
        fuse_manager: &mut FuseManager,
        bus: &mut B,
        direction: SyncDirection,
        policy: SyncPolicy,
    ) -> (r: SyncResult)
        ensures
            final(fuse_manager).fuses().len() == old(fuse_manager).fuses().len(),
            r.synced_count + r.failed_count + r.conflict_count == old(fuse_manager).fuses().len(),
            r.status == aggregate_status(
                r.synced_count as nat,
                r.failed_count as nat,
                r.conflict_count as nat,
            ),
            old(self).holds_flag() ==> r.synced_count == 0 && r.conflict_count == 0
                && *final(self) == *old(self)
                && final(fuse_manager).fuses() == old(fuse_manager).fuses()
                && final(fuse_manager).shadows() == old(fuse_manager).shadows(),
            final(self).holds_flag() == old(self).holds_flag(),
            !old(self).holds_flag() ==> exists|raws: Seq<u64>, seconds: Seq<u64>|
                #![trigger sync_chain(old(fuse_manager).fuses(), old(fuse_manager).shadows(), direction, policy, raws, seconds, old(fuse_manager).fuses().len())]
                raws.len() == old(fuse_manager).fuses().len() && seconds.len() == old(
                    fuse_manager,
                ).fuses().len() && ({
                    let (f, g, results) = sync_chain(
                        old(fuse_manager).fuses(),
                        old(fuse_manager).shadows(),
                        direction,
                        policy,
                        raws,
                        seconds,
                        old(fuse_manager).fuses().len(),
                    );
                    &&& final(fuse_manager).fuses() == f
                    &&& final(fuse_manager).shadows() == g
                    &&& r.synced_count == count_ok(results)
                    &&& r.conflict_count == count_conflicts(results)
                    &&& final(self).count_spec() == bump(old(self).count_spec(), count_ok(results))
                    &&& final(self).status_spec() == if results.len() == 0 {
                        old(self).status_spec()
                    } else if results.last() is Ok {
                        SyncStatus::Success
                    } else {
                        SyncStatus::Failed
                    }
                }),
    {
        let mut synced: usize = 0;
        let mut failed: usize = 0;
        let mut conflicts: usize = 0;
        let n = fuse_manager.count();
        let mut i: usize = 0;
        let ghost mut raws: Seq<u64> = Seq::empty();
        let ghost mut seconds: Seq<u64> = Seq::empty();
        let ghost mut results: Seq<Result<(), ShadowError>> = Seq::empty();
        while i < n
            invariant
                i <= n,
                n == old(fuse_manager).fuses().len(),
                fuse_manager.fuses().len() == n,
                synced + failed + conflicts == i,
                self.holds_flag() == old(self).holds_flag(),
                old(self).holds_flag() ==> synced == 0 && conflicts == 0 && *self == *old(self)
                    && fuse_manager.fuses() == old(fuse_manager).fuses()
                    && fuse_manager.shadows() == old(fuse_manager).shadows(),
                !old(self).holds_flag() ==> {
                    &&& raws.len() == i
                    &&& seconds.len() == i
                    &&& sync_chain(
                        old(fuse_manager).fuses(),
                        old(fuse_manager).shadows(),
                        direction,
                        policy,
                        raws,
                        seconds,
                        i as nat,
                    ) == (fuse_manager.fuses(), fuse_manager.shadows(), results)
                    &&& synced == count_ok(results)
                    &&& conflicts == count_conflicts(results)
                    &&& self.count_spec() == bump(old(self).count_spec(), count_ok(results))
                    &&& self.status_spec() == if results.len() == 0 {
                        old(self).status_spec()
                    } else if results.last() is Ok {
                        SyncStatus::Success
                    } else {
                        SyncStatus::Failed
                    }
                },
            decreases n - i,
        {
            proof {
                lemma_outcome_lengths(fuse_manager.fuses(), fuse_manager.shadows(), i as u32, direction, policy, 0, 0);
            }
            let ghost f0 = fuse_manager.fuses();
            let ghost r0 = fuse_manager.shadows();
            let res = self.sync_register(fuse_manager, bus, i as u32, direction, policy);
            match res {
                Ok(()) => {
                    synced = synced + 1;
                },
                Err(ShadowError::SyncConflict) => {
                    conflicts = conflicts + 1;
                },
                Err(_) => {
                    failed = failed + 1;
                },
            }
            proof {
                if !old(self).holds_flag() {
                    let (raw, second) = choose|raw: u64, second: u64|
                        (fuse_manager.fuses(), fuse_manager.shadows(), res)
                            == #[trigger] sync_outcome(f0, r0, i as u32, direction, policy, raw, second);
                    lemma_outcome_lengths(f0, r0, i as u32, direction, policy, raw, second);
                    let raws2 = raws.push(raw);
                    let seconds2 = seconds.push(second);
                    let results2 = results.push(res);
                    lemma_sync_chain_prefix(
                        old(fuse_manager).fuses(),
                        old(fuse_manager).shadows(),
                        direction,
                        policy,
                        raws,
                        seconds,
                        raws2,
                        seconds2,
                        i as nat,
                    );
                    assert(results2.drop_last() == results);
                    assert(sync_chain(
                        old(fuse_manager).fuses(),
                        old(fuse_manager).shadows(),
                        direction,
                        policy,
                        raws2,
                        seconds2,
                        (i + 1) as nat,
                    ) == (fuse_manager.fuses(), fuse_manager.shadows(), results2));
                    raws = raws2;
                    seconds = seconds2;
                    results = results2;
                }
            }
            i = i + 1;
        }
        proof {
            if !old(self).holds_flag() {
                assert(sync_chain(
                    old(fuse_manager).fuses(),
                    old(fuse_manager).shadows(),
                    direction,
                    policy,
                    raws,
                    seconds,
                    old(fuse_manager).fuses().len(),
                ) == (fuse_manager.fuses(), fuse_manager.shadows(), results));
            }
        }
        let status = if failed == 0 && conflicts == 0 {
            SyncStatus::Success
        } else if synced == 0 {
            SyncStatus::Failed
        } else {
            SyncStatus::Conflict
        };
        SyncResult { status, synced_count: synced, failed_count: failed, conflict_count: conflicts }
    }

    /// Whether the exclusive flag is held.
    pub fn is_syncing(&self) -> (r: bool)
        ensures
            r == self.holds_flag(),
    {
        self.syncing
    }

    /// Current status.
    pub fn get_status(&self) -> (r: SyncStatus)
        ensures
            r == self.status_spec(),
    {
        self.status
    }

    /// Successful synchronizations so far.
    pub fn get_sync_count(&self) -> (r: u32)
        ensures
            r == self.count_spec(),
    {
        self.sync_count
    }

    /// Returns to `Idle` and releases the flag; the count is kept.
    pub fn reset(&mut self)
        ensures
            final(self).status_spec() == SyncStatus::Idle,
            !final(self).holds_flag(),
            final(self).count_spec() == old(self).count_spec(),
    {
        self.status = SyncStatus::Idle;
        self.syncing = false;
    }
}

} // verus!
