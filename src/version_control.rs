//! Version history: a 16-entry circular log of committed values with
//! integrity checksums, and a shadow register that records every write in it.

use vstd::prelude::*;
use crate::error::ShadowError;
use crate::shadow_register::ShadowRegister;

verus! {

/// Number of entries a history holds.
pub const MAX_VERSION_HISTORY: usize = 16;

/// Integrity checksum of an entry: `value ^ timestamp` folded into 32 bits.
pub open spec fn entry_checksum(value: u64, timestamp: u64) -> u32 {
    (((value ^ timestamp) >> 32u64) as u32) ^ ((value ^ timestamp) as u32)
}

/// A snapshot of a register value.
#[derive(Debug, Clone, Copy)]
pub struct VersionEntry {
    /// Version number.
    pub version: u32,
    /// Register value at this version.
    pub value: u64,
    /// Time of the snapshot, in ticks.
    pub timestamp: u64,
    /// Integrity checksum over value and timestamp.
    pub checksum: u32,
    /// Whether the entry holds a snapshot.
    pub valid: bool,
}

impl VersionEntry {
    /// The empty, invalid entry.
    pub open spec fn empty() -> VersionEntry {
        VersionEntry { version: 0, value: 0, timestamp: 0, checksum: 0, valid: false }
    }

    /// A valid entry for `value` at `version` and `timestamp`.
    pub open spec fn snapshot(version: u32, value: u64, timestamp: u64) -> VersionEntry {
        VersionEntry {
            version,
            value,
            timestamp,
            checksum: entry_checksum(value, timestamp),
            valid: true,
        }
    }

    /// The entry is valid and its checksum matches.
    pub open spec fn intact(self) -> bool {
        self.valid && self.checksum == entry_checksum(self.value, self.timestamp)
    }

    /// Creates the empty, invalid entry.
    pub fn new() -> (r: VersionEntry)
        ensures
            r == VersionEntry::empty(),
    {
        VersionEntry { version: 0, value: 0, timestamp: 0, checksum: 0, valid: false }
    }

    fn calculate_checksum(value: u64, timestamp: u64) -> (r: u32)
        ensures
            r == entry_checksum(value, timestamp),
    {
        let combined = value ^ timestamp;
        ((combined >> 32) as u32) ^ (combined as u32)
    }

    /// Creates a valid entry with its checksum.
    pub fn from_state(version: u32, value: u64, timestamp: u64) -> (r: VersionEntry)
        ensures
            r == VersionEntry::snapshot(version, value, timestamp),
    {
        let checksum = VersionEntry::calculate_checksum(value, timestamp);
        VersionEntry { version, value, timestamp, checksum, valid: true }
    }

    /// Whether the entry is valid and its checksum matches.
    pub fn verify(&self) -> (r: bool)
        ensures
            r == self.intact(),
    {
        if !self.valid {
            return false;
        }
        let calculated = VersionEntry::calculate_checksum(self.value, self.timestamp);
        calculated == self.checksum
    }

    /// Whether the entry holds a snapshot.
    pub fn is_valid(&self) -> (r: bool)
        ensures
            r == self.valid,
    {
        self.valid
    }

    /// Version number.
    pub fn get_version(&self) -> (r: u32)
        ensures
            r == self.version,
    {
        self.version
    }

    /// Snapshot value.
    pub fn get_value(&self) -> (r: u64)
        ensures
            r == self.value,
    {
        self.value
    }

    /// Snapshot time.
    pub fn get_timestamp(&self) -> (r: u64)
        ensures
            r == self.timestamp,
    {
        self.timestamp
    }
}

/// The `i`-th most recent version issued before `counter` (0 = the last one).
pub open spec fn issued_back(counter: u32, i: int) -> u32 {
    counter.wrapping_sub((i + 1) as u32)
}

/// Held entries, newest first, are valid and carry the versions issued last.
pub open spec fn consecutive(held: Seq<VersionEntry>, counter: u32) -> bool {
    forall|i: int|
        0 <= i < held.len() ==> (#[trigger] held[i]).valid && held[i].version == issued_back(
            counter,
            i,
        )
}

/// Slot `i` of `held` is the first valid entry for `version`.
pub open spec fn version_at(held: Seq<VersionEntry>, version: u32, i: int) -> bool {
    &&& 0 <= i < held.len()
    &&& held[i].valid
    &&& held[i].version == version
    &&& forall|j: int| 0 <= j < i ==> !((#[trigger] held[j]).valid && held[j].version == version)
}

/// Some held entry is valid and carries `version`.
pub open spec fn holds_version(held: Seq<VersionEntry>, version: u32) -> bool {
    exists|i: int| 0 <= i < held.len() && (#[trigger] held[i]).valid && held[i].version == version
}

/// `held` (newest first) after `entry` was recorded: the oldest entry is
/// dropped once 16 are held.
pub open spec fn pushed(held: Seq<VersionEntry>, entry: VersionEntry) -> Seq<VersionEntry> {
    seq![entry] + held.take(
        if held.len() < 16 {
            held.len() as int
        } else {
            15
        },
    )
}

/// The slot of the first valid entry for `version` (meaningful when held).
pub open spec fn version_slot(held: Seq<VersionEntry>, version: u32) -> int {
    choose|i: int| version_at(held, version, i)
}

/// The first valid entry for a version is unique, and is what `version_slot` names.
pub proof fn lemma_version_slot(held: Seq<VersionEntry>, version: u32, k: int)
    requires
        version_at(held, version, k),
    ensures
        version_slot(held, version) == k,
        holds_version(held, version),
{
    let i = version_slot(held, version);
    assert(version_at(held, version, i));
    if i < k {
        assert(!(held[i].valid && held[i].version == version));
    } else if k < i {
        assert(!(held[k].valid && held[k].version == version));
    }
}

/// Eviction window: when the held entries carry the versions issued last, a
/// version is held exactly when it is one of the `held.len()` most recently
/// issued; recording a new entry keeps that so, and keeps at most 16.
pub proof fn lemma_version_window(
    held: Seq<VersionEntry>,
    counter: u32,
    version: u32,
    value: u64,
    timestamp: u64,
)
    requires
        consecutive(held, counter),
        held.len() <= 16,
    ensures
        holds_version(held, version) <==> exists|i: int|
            0 <= i < held.len() && issued_back(counter, i) == version,
        consecutive(
            pushed(held, VersionEntry::snapshot(counter, value, timestamp)),
            counter.wrapping_add(1),
        ),
        pushed(held, VersionEntry::snapshot(counter, value, timestamp)).len() == if held.len() < 16 {
            held.len() + 1
        } else {
            16
        },
{
    if holds_version(held, version) {
        let i = choose|i: int| 0 <= i < held.len() && (#[trigger] held[i]).valid && held[i].version == version;
        assert(issued_back(counter, i) == version);
    }
    if exists|i: int| 0 <= i < held.len() && issued_back(counter, i) == version {
        let i = choose|i: int| 0 <= i < held.len() && issued_back(counter, i) == version;
        assert(held[i].valid && held[i].version == version);
    }
    let p = pushed(held, VersionEntry::snapshot(counter, value, timestamp));
    assert forall|i: int| 0 <= i < p.len() implies (#[trigger] p[i]).valid && p[i].version
        == issued_back(counter.wrapping_add(1), i) by {
        if i > 0 {
            assert(held[i - 1].version == issued_back(counter, i - 1));
        }
    }
}

/// Circular buffer of the most recent versions, with a version counter that
/// only moves forward.
pub struct VersionHistory {
    entries: [VersionEntry; 16],
    head: usize,
    count: usize,
    version_counter: u32,
}

impl VersionHistory {
    #[verifier::type_invariant]
    spec fn inv(&self) -> bool {
        &&& self.head < 16
        &&& self.count <= 16
        &&& self.count < 16 ==> self.head == self.count
        &&& consecutive(self.held(), self.version_counter)
    }

    /// Held entries, newest first.
    pub closed spec fn held(&self) -> Seq<VersionEntry> {
        Seq::new(
            self.count as nat,
            |i: int| self.entries@[(self.head as int + 15 - i) % 16],
        )
    }

    /// Next version number to issue.
    pub closed spec fn counter(&self) -> u32 {
        self.version_counter
    }

    /// Creates an empty history.
    pub fn new() -> (r: VersionHistory)
        ensures
            r.held() == Seq::<VersionEntry>::empty(),
            r.counter() == 0,
            consecutive(r.held(), r.counter()),
    {
        let r = VersionHistory {
            entries: [VersionEntry::new(); 16],
            head: 0,
            count: 0,
            version_counter: 0,
        };
        assert(r.held() =~= Seq::<VersionEntry>::empty());
        r
    }

    /// Records `value` under the next version number and returns that number;
    /// past 16 entries the oldest one is evicted.
    pub fn push(&mut self, value: u64, timestamp: u64) -> (r: u32)
        ensures
            r == old(self).counter(),
            final(self).counter() == old(self).counter().wrapping_add(1),
            final(self).held() == pushed(old(self).held(), VersionEntry::snapshot(r, value, timestamp)),
            final(self).held().len() == if old(self).held().len() < 16 {
                old(self).held().len() + 1
            } else {
                16
            },
            consecutive(final(self).held(), final(self).counter()),
    {
        proof {
            use_type_invariant(&*self);
        }
        let version = self.version_counter;
        let mut entries = self.entries;
        let head = self.head;
        entries[head] = VersionEntry::from_state(version, value, timestamp);
        let next_head = (head + 1) % 16;
        let next_count = if self.count < 16 {
            self.count + 1
        } else {
            self.count
        };
        let ghost old_held = self.held();
        let ghost c = version;
        proof {
            let nh = Seq::new(
                next_count as nat,
                |i: int| entries@[(next_head as int + 15 - i) % 16],
            );
            let kept = old_held.take(next_count as int - 1);
            let expect = seq![VersionEntry::snapshot(version, value, timestamp)] + kept;
            assert forall|i: int| 0 <= i < next_count implies nh[i] == expect[i] by {
                if i > 0 {
                    assert((next_head as int + 15 - i) % 16 == (head as int + 15 - (i - 1)) % 16);
                    assert((head as int + 15 - (i - 1)) % 16 != head as int);
                }
            }
            assert(nh =~= expect);
            assert forall|i: int| 0 <= i < nh.len() implies (#[trigger] nh[i]).valid
                && nh[i].version == issued_back(c.wrapping_add(1), i) by {
                if i > 0 {
                    assert(old_held[i - 1].version == issued_back(c, i - 1));
                }
            }
        }
        let next = VersionHistory {
            entries,
            head: next_head,
            count: next_count,
            version_counter: version.wrapping_add(1),
        };
        proof {
            let kept = old_held.take(next_count as int - 1);
            let expect = seq![VersionEntry::snapshot(version, value, timestamp)] + kept;
            assert(next.held() =~= expect);
        }
        *self = next;
        version
    }

    /// The most recent held entry carrying `version`; `None` once it was evicted
    /// or if it was never issued.
    pub fn get(&self, version: u32) -> (r: Option<&VersionEntry>)
        ensures
            match r {
                Some(e) => holds_version(self.held(), version) && *e == self.held()[version_slot(
                    self.held(),
                    version,
                )],
                None => !holds_version(self.held(), version),
            },
            r is Some <==> exists|i: int|
                0 <= i < self.held().len() && issued_back(self.counter(), i) == version,
    {
        proof {
            use_type_invariant(self);
        }
        let mut i: usize = 0;
        while i < self.count
            invariant
                i <= self.count,
                self.count <= 16,
                self.head < 16,
                consecutive(self.held(), self.version_counter),
                forall|j: int| 0 <= j < i ==> !((#[trigger] self.held()[j]).valid && self.held()[j].version == version),
            decreases self.count - i,
        {
            let index = (self.head + 16 - 1 - i) % 16;
            let entry = &self.entries[index];
            assert(*entry == self.held()[i as int]);
            if entry.valid && entry.version == version {
                proof {
                    lemma_version_slot(self.held(), version, i as int);
                }
                assert(issued_back(self.counter(), i as int) == version);
                return Some(entry);
            }
            i = i + 1;
        }
        proof {
            assert forall|j: int| 0 <= j < self.held().len() implies issued_back(self.counter(), j)
                != version by {
                assert(self.held()[j].valid);
            }
        }
        None
    }

    /// The most recent entry, if any is held.
    pub fn get_latest(&self) -> (r: Option<&VersionEntry>)
        ensures
            match r {
                Some(e) => self.held().len() > 0 && *e == self.held()[0],
                None => self.held().len() == 0,
            },
    {
        proof {
            use_type_invariant(self);
        }
        if self.count == 0 {
            return None;
        }
        let latest_index = (self.head + 16 - 1) % 16;
        Some(&self.entries[latest_index])
    }

    /// The entry `offset` places before the most recent one (0 = most recent).
    pub fn get_by_offset(&self, offset: usize) -> (r: Option<&VersionEntry>)
        ensures
            match r {
                Some(e) => offset < self.held().len() && *e == self.held()[offset as int],
                None => offset >= self.held().len(),
            },
    {
        proof {
            use_type_invariant(self);
        }
        if offset >= self.count {
            return None;
        }
        let index = (self.head + 16 - 1 - offset) % 16;
        Some(&self.entries[index])
    }

    /// Number of held entries.
    pub fn count(&self) -> (r: usize)
        ensures
            r == self.held().len(),
            r <= MAX_VERSION_HISTORY,
    {
        proof {
            use_type_invariant(self);
        }
        self.count
    }

    /// Next version number to issue (the number of versions issued so far,
    /// modulo 2^32).
    pub fn current_version(&self) -> (r: u32)
        ensures
            r == self.counter(),
    {
        self.version_counter
    }

    /// Discards all entries; version numbers keep counting from where they were.
    pub fn clear(&mut self)
        ensures
            final(self).held() == Seq::<VersionEntry>::empty(),
            final(self).counter() == old(self).counter(),
            consecutive(final(self).held(), final(self).counter()),
    {
        let next = VersionHistory {
            entries: self.entries,
            head: 0,
            count: 0,
            version_counter: self.version_counter,
        };
        assert(next.held() =~= Seq::<VersionEntry>::empty());
        *self = next;
    }

    /// Whether every held entry passes its integrity check.
    pub fn verify_all(&self) -> (r: bool)
        ensures
            r == (forall|i: int| 0 <= i < self.held().len() ==> #[trigger] self.held()[i].intact()),
    {
        proof {
            use_type_invariant(self);
        }
        let mut i: usize = 0;
        while i < self.count
            invariant
                i <= self.count,
                self.count <= 16,
                self.head < 16,
                self.count < 16 ==> self.head == self.count,
                forall|j: int| 0 <= j < i ==> #[trigger] self.entries@[j].intact(),
            decreases self.count - i,
        {
            if !self.entries[i].verify() {
                proof {
                    let k = self.count as int - 1 - i as int;
                    if self.count < 16 {
                        assert((self.head as int + 15 - k) % 16 == i as int);
                        assert(!self.held()[k].intact());
                    } else {
                        let k2 = (self.head as int + 15 - i as int) % 16;
                        assert((self.head as int + 15 - k2) % 16 == i as int);
                        assert(!self.held()[k2].intact());
                    }
                }
                return false;
            }
            i = i + 1;
        }
        proof {
            assert forall|k: int| 0 <= k < self.held().len() implies #[trigger] self.held()[k].intact() by {
                let idx = (self.head as int + 15 - k) % 16;
                assert(0 <= idx < self.count);
            }
        }
        true
    }
}

/// The register and result of restoring the value of history entry `e`: the
/// entry is checked, then its value is written and committed.
pub open spec fn restore_outcome(reg: ShadowRegister, e: VersionEntry) -> (
    ShadowRegister,
    Result<(), ShadowError>,
) {
    if !e.intact() {
        (reg, Err(ShadowError::VersionCorrupted))
    } else {
        match reg.write_error() {
            Some(err) => (reg, Err(err)),
            None => (reg.staged(e.value).committed(), Ok(())),
        }
    }
}

/// A shadow register whose writes are recorded in a version history.
pub struct VersionedShadowRegister {
    register: ShadowRegister,
    history: VersionHistory,
}

impl VersionedShadowRegister {
    /// The underlying register.
    pub closed spec fn reg(&self) -> ShadowRegister {
        self.register
    }

    /// The version history.
    pub closed spec fn hist(&self) -> VersionHistory {
        self.history
    }

    /// Creates a register with an empty history.
    pub fn new(id: u32, fuse_addr: u64) -> (r: VersionedShadowRegister)
        ensures
            r.reg() == ShadowRegister::initial(id, fuse_addr),
            r.hist().held() == Seq::<VersionEntry>::empty(),
            r.hist().counter() == 0,
    {
        VersionedShadowRegister {
            register: ShadowRegister::new(id, fuse_addr),
            history: VersionHistory::new(),
        }
    }

    fn restore(&mut self, entry: VersionEntry) -> (r: Result<(), ShadowError>)
        ensures
            (final(self).reg(), r) == restore_outcome(old(self).reg(), entry),
            final(self).hist() == old(self).hist(),
    {
        if !entry.verify() {
            return Err(ShadowError::VersionCorrupted);
        }
        match self.register.write(entry.get_value()) {
            Err(e) => {
                return Err(e);
            },
            Ok(()) => {},
        }
        self.register.commit()
    }

    /// Stages `value` on the register and records it in the history under the
    /// next version number, which is returned.
    pub fn write_versioned(&mut self, value: u64, timestamp: u64) -> (r: Result<u32, ShadowError>)
        ensures
            match old(self).reg().write_error() {
                Some(e) => r == Err::<u32, ShadowError>(e) && final(self).reg() == old(self).reg()
                    && final(self).hist() == old(self).hist(),
                None => r == Ok::<u32, ShadowError>(old(self).hist().counter())
                    && final(self).reg() == old(self).reg().staged(value)
                    && final(self).hist().counter() == old(self).hist().counter().wrapping_add(1)
                    && final(self).hist().held() == pushed(
                    old(self).hist().held(),
                    VersionEntry::snapshot(old(self).hist().counter(), value, timestamp),
                ),
            },
    {
        match self.register.write(value) {
            Err(e) => {
                return Err(e);
            },
            Ok(()) => {},
        }
        let version = self.history.push(value, timestamp);
        Ok(version)
    }

    /// Writes and commits the value recorded under `version` again, as a new
    /// write; fails if the version is no longer held.
    pub fn rollback_to_version(&mut self, version: u32) -> (r: Result<(), ShadowError>)
        ensures
            final(self).hist() == old(self).hist(),
            !holds_version(old(self).hist().held(), version) ==> r == Err::<(), ShadowError>(
                ShadowError::VersionNotFound,
            ) && final(self).reg() == old(self).reg(),
            holds_version(old(self).hist().held(), version) ==> (final(self).reg(), r)
                == restore_outcome(
                old(self).reg(),
                old(self).hist().held()[version_slot(old(self).hist().held(), version)],
            ),
    {
        match self.history.get(version) {
            Some(entry) => {
                let e = *entry;
                self.restore(e)
            },
            None => Err(ShadowError::VersionNotFound),
        }
    }

    /// Writes and commits the value recorded `offset` entries before the most
    /// recent one (0 = most recent).
    pub fn rollback_by_offset(&mut self, offset: usize) -> (r: Result<(), ShadowError>)
        ensures
            final(self).hist() == old(self).hist(),
            offset >= old(self).hist().held().len() ==> r == Err::<(), ShadowError>(
                ShadowError::OffsetOutOfRange,
            ) && final(self).reg() == old(self).reg(),
            offset < old(self).hist().held().len() ==> (final(self).reg(), r) == restore_outcome(
                old(self).reg(),
                old(self).hist().held()[offset as int],
            ),
    {
        match self.history.get_by_offset(offset) {
            Some(entry) => {
                let e = *entry;
                self.restore(e)
            },
            None => Err(ShadowError::OffsetOutOfRange),
        }
    }

    /// The underlying register.
    pub fn get_register(&self) -> (r: &ShadowRegister)
        ensures
            *r == self.reg(),
    {
        &self.register
    }

    /// The underlying register, for modification.
    pub fn get_register_mut(&mut self) -> (r: &mut ShadowRegister)
        ensures
            *r == old(self).reg(),
            final(self).reg() == *final(r),
            final(self).hist() == old(self).hist(),
    {
        &mut self.register
    }

    /// The version history.
    pub fn get_history(&self) -> (r: &VersionHistory)
        ensures
            *r == self.hist(),
    {
        &self.history
    }

    /// The version history, for modification.
    pub fn get_history_mut(&mut self) -> (r: &mut VersionHistory)
        ensures
            *r == old(self).hist(),
            final(self).hist() == *final(r),
            final(self).reg() == old(self).reg(),
    {
        &mut self.history
    }

    /// The values recorded under two versions, if both are held.
    pub fn diff_versions(&self, version1: u32, version2: u32) -> (r: Option<(u64, u64)>)
        ensures
            r == if holds_version(self.hist().held(), version1) && holds_version(
                self.hist().held(),
                version2,
            ) {
                Some(
                    (
                        self.hist().held()[version_slot(self.hist().held(), version1)].value,
                        self.hist().held()[version_slot(self.hist().held(), version2)].value,
                    ),
                )
            } else {
                None
            },
    {
        let entry1 = match self.history.get(version1) {
            Some(e) => e,
            None => {
                return None;
            },
        };
        let entry2 = match self.history.get(version2) {
            Some(e) => e,
            None => {
                return None;
            },
        };
        Some((entry1.get_value(), entry2.get_value()))
    }

    /// The held version numbers, newest first.
    pub fn get_all_versions(&self) -> (r: Vec<u32>)
        ensures
            r@ == Seq::new(self.hist().held().len(), |i: int| self.hist().held()[i].version),
    {
        let count = self.history.count();
        let mut versions: Vec<u32> = Vec::new();
        let ghost held = self.hist().held();
        proof {
            use_type_invariant(&self.history);
        }
        let mut i: usize = 0;
        while i < count
            invariant
                i <= count,
                count == held.len(),
                held == self.hist().held(),
                consecutive(held, self.hist().counter()),
                versions@ == Seq::new(i as nat, |k: int| held[k].version),
            decreases count - i,
        {
            match self.history.get_by_offset(i) {
                Some(entry) => {
                    assert(entry.valid);
                    if entry.is_valid() {
                        versions.push(entry.get_version());
                    }
                },
                None => {},
            }
            proof {
                assert(versions@ =~= Seq::new((i + 1) as nat, |k: int| held[k].version));
            }
            i = i + 1;
        }
        versions
    }
}

} // verus!
