//! Hardware fuses (one-time, multi-time and EEPROM-like) and the manager that
//! pairs each fuse with a shadow register at the same slot.

use vstd::prelude::*;
use crate::error::ShadowError;
use crate::shadow_register::{ShadowRegister, ShadowRegisterBank};

verus! {

/// Number of fuses a manager holds.
pub const FUSE_CAPACITY: usize = 128;

/// Access to the physical fuse words.
///
/// The library makes no assumption about what a read returns: every property
/// proved of the functions that take a bus holds for any value it hands back.
pub trait FuseBus {
    /// Reads the 64-bit word at physical `address`.
    fn read_word(&mut self, address: u64) -> u64;

    /// Writes `value` to the 64-bit word at physical `address`.
    fn write_word(&mut self, address: u64, value: u64);
}

/// Programming state of a fuse.
#[derive(Debug, Clone, Copy, PartialEq, Eq, Structural)]
pub enum FuseState {
    /// Unprogrammed.
    Virgin,
    /// A program operation is under way.
    Programming,
    /// Holds a value.
    Programmed,
    /// Permanently locked.
    Blown,
    /// A read-back or ECC check failed.
    Error,
}

/// How often a fuse may be programmed.
#[derive(Debug, Clone, Copy, PartialEq, Eq, Structural)]
pub enum FuseMode {
    /// One-time programmable.
    OTP,
    /// Multiple-time programmable.
    MTP,
    /// Electrically erasable.
    EEPROM,
}

/// Bit `j` of byte `i` of `data`.
pub open spec fn byte_bit(data: u64, i: u64, j: u64) -> bool {
    (data >> (i * 8 + j)) & 1 == 1
}

/// Odd parity of the low `n` bits of byte `i` of `data`.
pub open spec fn byte_parity(data: u64, i: u64, n: nat) -> bool
    decreases n,
{
    if n == 0 {
        false
    } else {
        byte_parity(data, i, (n - 1) as nat) != byte_bit(data, i, (n - 1) as u64)
    }
}

/// Per-byte parity bits of the bytes below `k`.
pub open spec fn fuse_ecc_upto(data: u64, k: nat) -> u16
    decreases k,
{
    if k == 0 {
        0u16
    } else {
        let e = fuse_ecc_upto(data, (k - 1) as nat);
        if byte_parity(data, (k - 1) as u64, 8) {
            e | (1u16 << ((k - 1) as u16))
        } else {
            e
        }
    }
}

/// Redundancy bits of a fuse word: bit `i` is the parity of byte `i`.
pub open spec fn fuse_ecc(data: u64) -> u16 {
    fuse_ecc_upto(data, 8)
}

/// Redundancy bits of a fuse word: bit `i` is the parity of byte `i`.
fn calculate_ecc(data: u64) -> (r: u16)
    ensures
        r == fuse_ecc(data),
{
    let mut ecc: u16 = 0;
    let mut i: u64 = 0;
    while i < 8
        invariant
            i <= 8,
            ecc == fuse_ecc_upto(data, i as nat),
        decreases 8 - i,
    {
        let mut parity: bool = false;
        let mut j: u64 = 0;
        while j < 8
            invariant
                i < 8,
                j <= 8,
                parity == byte_parity(data, i, j as nat),
            decreases 8 - j,
        {
            if (data >> (i * 8 + j)) & 1 == 1 {
                parity = !parity;
            }
            j = j + 1;
        }
        if parity {
            ecc = ecc | (1u16 << (i as u16));
        }
        i = i + 1;
    }
    ecc
}

/// Descriptor of one physical fuse.
///
/// The fields describe the fuse cell as last observed; the operations of this
/// library never clear the lock bit once `blow` has set it.
#[derive(Debug, Clone, Copy)]
pub struct HardwareFuse {
    /// Physical address of the fuse word.
    pub address: u64,
    /// Programming mode.
    pub mode: FuseMode,
    /// Programming state.
    pub state: FuseState,
    /// Last value read or programmed.
    pub value: u64,
    /// Lock bit; set for good by `blow`.
    pub locked: bool,
    /// Redundancy count; ECC is kept when above one.
    pub redundancy: u8,
    /// Stored redundancy bits.
    pub ecc: u16,
}

impl HardwareFuse {
    /// Physical address of the fuse word.
    pub open spec fn address_spec(&self) -> u64 {
        self.address
    }

    /// Programming mode.
    pub open spec fn mode_spec(&self) -> FuseMode {
        self.mode
    }

    /// Programming state.
    pub open spec fn state_spec(&self) -> FuseState {
        self.state
    }

    /// Last value read or programmed.
    pub open spec fn value_spec(&self) -> u64 {
        self.value
    }

    /// Lock bit.
    pub open spec fn locked_spec(&self) -> bool {
        self.locked
    }

    /// A fresh fuse.
    pub open spec fn initial(address: u64, mode: FuseMode) -> HardwareFuse {
        HardwareFuse {
            address,
            mode,
            state: FuseState::Virgin,
            value: 0,
            locked: false,
            redundancy: 1,
            ecc: 0,
        }
    }

    /// The fuse and result after the word `raw` was read from its address.
    pub open spec fn read_outcome(self, raw: u64) -> (HardwareFuse, Result<u64, ShadowError>) {
        if self.redundancy > 1 && fuse_ecc(raw) != self.ecc && self.ecc != 0 {
            (HardwareFuse { state: FuseState::Error, ..self }, Err(ShadowError::EccMismatch))
        } else {
            (
                HardwareFuse {
                    value: raw,
                    state: if raw != 0 {
                        FuseState::Programmed
                    } else {
                        FuseState::Virgin
                    },
                    ..self
                },
                Ok(raw),
            )
        }
    }

    /// The error that refuses programming, if any.
    pub open spec fn program_error(self) -> Option<ShadowError> {
        if self.locked {
            Some(ShadowError::FuseLocked)
        } else if self.mode == FuseMode::OTP && self.state == FuseState::Programmed {
            Some(ShadowError::OtpAlreadyProgrammed)
        } else {
            None
        }
    }

    /// The fuse once programming of `value` has started.
    pub open spec fn programming(self, value: u64) -> HardwareFuse {
        HardwareFuse {
            state: FuseState::Programming,
            ecc: if self.redundancy > 1 {
                fuse_ecc(value)
            } else {
                self.ecc
            },
            ..self
        }
    }

    /// The fuse and result once `readback` was read after writing `value`.
    pub open spec fn readback_outcome(self, value: u64, readback: u64) -> (
        HardwareFuse,
        Result<(), ShadowError>,
    ) {
        if readback != value {
            (HardwareFuse { state: FuseState::Error, ..self }, Err(ShadowError::VerificationFailed))
        } else {
            (HardwareFuse { value, state: FuseState::Programmed, ..self }, Ok(()))
        }
    }

    /// The fuse and result of programming `value` when `readback` is read back.
    pub open spec fn program_outcome(self, value: u64, readback: u64) -> (
        HardwareFuse,
        Result<(), ShadowError>,
    ) {
        match self.program_error() {
            Some(e) => (self, Err(e)),
            None => self.programming(value).readback_outcome(value, readback),
        }
    }

    /// The fuse once blown: state `Blown`, lock bit set.
    pub open spec fn blown(self) -> HardwareFuse {
        HardwareFuse { state: FuseState::Blown, locked: true, ..self }
    }

    /// Creates a virgin, unlocked fuse.
    pub fn new(address: u64, mode: FuseMode) -> (r: HardwareFuse)
        ensures
            r == HardwareFuse::initial(address, mode),
            r.address_spec() == address,
            r.mode_spec() == mode,
            r.state_spec() == FuseState::Virgin,
            r.value_spec() == 0,
            !r.locked_spec(),
    {
        HardwareFuse {
            address,
            mode,
            state: FuseState::Virgin,
            value: 0,
            locked: false,
            redundancy: 1,
            ecc: 0,
        }
    }

    /// Takes in the word `raw` read from the fuse's address: checks the
    /// redundancy bits when kept, then records the value.
    pub fn apply_read(&mut self, raw: u64) -> (r: Result<u64, ShadowError>)
        ensures
            (*final(self), r) == old(self).read_outcome(raw),
    {
        if self.redundancy > 1 {
            let calculated_ecc = calculate_ecc(raw);
            if calculated_ecc != self.ecc && self.ecc != 0 {
                self.state = FuseState::Error;
                return Err(ShadowError::EccMismatch);
            }
        }
        self.value = raw;
        self.state = if raw != 0 {
            FuseState::Programmed
        } else {
            FuseState::Virgin
        };
        Ok(raw)
    }

    /// Reads the fuse word through `bus` and takes it in.
    pub fn read_from_hardware<B: FuseBus>(&mut self, bus: &mut B) -> (r: Result<u64, ShadowError>)
        ensures
            exists|raw: u64| (*final(self), r) == old(self).read_outcome(raw),
            final(self).address_spec() == old(self).address_spec(),
            final(self).mode_spec() == old(self).mode_spec(),
            final(self).locked_spec() == old(self).locked_spec(),
            r matches Ok(v) ==> final(self).value_spec() == v && final(self).state_spec() == if v
                != 0 {
                FuseState::Programmed
            } else {
                FuseState::Virgin
            },
            r is Err ==> r == Err::<u64, ShadowError>(ShadowError::EccMismatch) && final(self).state_spec() == FuseState::Error,
    {
        let raw = bus.read_word(self.address);
        let r = self.apply_read(raw);
        assert((*self, r) == old(self).read_outcome(raw));
        r
    }

    /// Checks that `value` may be programmed and enters `Programming`.
    pub fn begin_program(&mut self, value: u64) -> (r: Result<(), ShadowError>)
        ensures
            match old(self).program_error() {
                Some(e) => r == Err::<(), ShadowError>(e) && *final(self) == *old(self),
                None => r is Ok && *final(self) == old(self).programming(value),
            },
    {
        if self.locked {
            return Err(ShadowError::FuseLocked);
        }
        if self.mode == FuseMode::OTP && self.state == FuseState::Programmed {
            return Err(ShadowError::OtpAlreadyProgrammed);
        }
        self.state = FuseState::Programming;
        if self.redundancy > 1 {
            self.ecc = calculate_ecc(value);
        }
        Ok(())
    }

    /// Compares the word read back after writing `value` and settles the state.
    pub fn finish_program(&mut self, value: u64, readback: u64) -> (r: Result<(), ShadowError>)
        ensures
            (*final(self), r) == old(self).readback_outcome(value, readback),
    {
        if readback != value {
            self.state = FuseState::Error;
            return Err(ShadowError::VerificationFailed);
        }
        self.value = value;
        self.state = FuseState::Programmed;
        Ok(())
    }

    /// Programs `value` through `bus`: write, then read back and compare.
    pub fn program_to_hardware<B: FuseBus>(&mut self, bus: &mut B, value: u64) -> (r: Result<
        (),
        ShadowError,
    >)
        ensures
            exists|readback: u64| (*final(self), r) == old(self).program_outcome(value, readback),
            final(self).address_spec() == old(self).address_spec(),
            final(self).mode_spec() == old(self).mode_spec(),
            final(self).locked_spec() == old(self).locked_spec(),
            old(self).locked_spec() ==> r == Err::<(), ShadowError>(ShadowError::FuseLocked)
                && *final(self) == *old(self),
            !old(self).locked_spec() && old(self).mode_spec() == FuseMode::OTP && old(self).state_spec() == FuseState::Programmed ==> r == Err::<(), ShadowError>(
                ShadowError::OtpAlreadyProgrammed,
            ) && *final(self) == *old(self),
            r is Ok ==> final(self).value_spec() == value && final(self).state_spec()
                == FuseState::Programmed,
            r == Err::<(), ShadowError>(ShadowError::VerificationFailed) ==> final(self).state_spec() == FuseState::Error,
    {
        match self.begin_program(value) {
            Err(e) => {
                assert((*self, Err::<(), ShadowError>(e)) == old(self).program_outcome(value, 0));
                Err(e)
            },
            Ok(()) => {
                bus.write_word(self.address, value);
                let readback = bus.read_word(self.address);
                let r = self.finish_program(value, readback);
                assert((*self, r) == old(self).program_outcome(value, readback));
                r
            },
        }
    }

    /// Blows a programmed fuse: state `Blown` and the lock bit set for good.
    pub fn blow(&mut self) -> (r: Result<(), ShadowError>)
        ensures
            old(self).state_spec() != FuseState::Programmed ==> r == Err::<(), ShadowError>(
                ShadowError::NotProgrammed,
            ) && *final(self) == *old(self),
            old(self).state_spec() == FuseState::Programmed ==> r is Ok && *final(self) == old(self).blown() && final(self).state_spec() == FuseState::Blown && final(self).locked_spec(),
    {
        if self.state != FuseState::Programmed {
            return Err(ShadowError::NotProgrammed);
        }
        self.state = FuseState::Blown;
        self.locked = true;
        Ok(())
    }

    /// Whether the fuse is unprogrammed.
    pub fn is_virgin(&self) -> (r: bool)
        ensures
            r == (self.state_spec() == FuseState::Virgin),
    {
        self.state == FuseState::Virgin
    }

    /// Whether the lock bit is set.
    pub fn is_locked(&self) -> (r: bool)
        ensures
            r == self.locked_spec(),
    {
        self.locked
    }

    /// Last value read or programmed.
    pub fn get_value(&self) -> (r: u64)
        ensures
            r == self.value_spec(),
    {
        self.value
    }

    /// Programming state.
    pub fn get_state(&self) -> (r: FuseState)
        ensures
            r == self.state_spec(),
    {
        self.state
    }
}

/// The errors that reading and programming a fuse can report.
pub proof fn lemma_fuse_error_kinds()
    ensures
        forall|f: HardwareFuse, raw: u64|
            (#[trigger] f.read_outcome(raw)).1 is Err ==> f.read_outcome(raw).1 == Err::<
                u64,
                ShadowError,
            >(ShadowError::EccMismatch),
        forall|f: HardwareFuse, v: u64, rb: u64|
            (#[trigger] f.program_outcome(v, rb)).1 is Err ==> f.program_outcome(v, rb).1 == Err::<
                (),
                ShadowError,
            >(ShadowError::FuseLocked) || f.program_outcome(v, rb).1 == Err::<(), ShadowError>(
                ShadowError::OtpAlreadyProgrammed,
            ) || f.program_outcome(v, rb).1 == Err::<(), ShadowError>(
                ShadowError::VerificationFailed,
            ),
{
}

/// Write-once: once an OTP fuse was programmed successfully, programming it
/// again fails with `OtpAlreadyProgrammed` and changes nothing, whatever is
/// read back.
pub proof fn lemma_otp_write_once(f: HardwareFuse, v1: u64, rb1: u64, v2: u64, rb2: u64)
    requires
        f.mode_spec() == FuseMode::OTP,
        f.program_outcome(v1, rb1).1 is Ok,
    ensures
        f.program_outcome(v1, rb1).0.program_outcome(v2, rb2) == (
            f.program_outcome(v1, rb1).0,
            Err::<(), ShadowError>(ShadowError::OtpAlreadyProgrammed),
        ),
{
}

/// Multi-time programming: an MTP fuse that was programmed successfully
/// accepts another value, and holds it when the read-back matches.
pub proof fn lemma_mtp_reprogram(f: HardwareFuse, v1: u64, rb1: u64, v2: u64)
    requires
        f.mode_spec() == FuseMode::MTP,
        f.program_outcome(v1, rb1).1 is Ok,
    ensures
        f.program_outcome(v1, rb1).0.program_error() is None,
        f.program_outcome(v1, rb1).0.program_outcome(v2, v2).1 is Ok,
        f.program_outcome(v1, rb1).0.program_outcome(v2, v2).0.value_spec() == v2,
        f.program_outcome(v1, rb1).0.program_outcome(v2, v2).0.state_spec() == FuseState::Programmed,
{
}

/// Fuses, shadow registers and result after loading slot `i` from the word `raw`.
pub open spec fn load_outcome(
    fuses: Seq<HardwareFuse>,
    regs: Seq<ShadowRegister>,
    i: int,
    raw: u64,
) -> (Seq<HardwareFuse>, Seq<ShadowRegister>, Result<(), ShadowError>) {
    if i < 0 || i >= fuses.len() {
        (fuses, regs, Err(ShadowError::InvalidFuseIndex))
    } else {
        let (f2, rr) = fuses[i].read_outcome(raw);
        let fs = fuses.update(i, f2);
        match rr {
            Err(e) => (fs, regs, Err(e)),
            Ok(v) => if i < regs.len() {
                match regs[i].write_error() {
                    Some(e) => (fs, regs, Err(e)),
                    None => (fs, regs.update(i, regs[i].staged(v).committed()), Ok(())),
                }
            } else {
                (fs, regs, Ok(()))
            },
        }
    }
}

/// Fuses and result after committing slot `i` when `readback` is read back.
pub open spec fn commit_outcome(
    fuses: Seq<HardwareFuse>,
    regs: Seq<ShadowRegister>,
    i: int,
    readback: u64,
) -> (Seq<HardwareFuse>, Result<(), ShadowError>) {
    if i < 0 || i >= fuses.len() {
        (fuses, Err(ShadowError::InvalidFuseIndex))
    } else if i >= regs.len() {
        (fuses, Err(ShadowError::ShadowNotFound))
    } else {
        let (f2, r) = fuses[i].program_outcome(regs[i].value, readback);
        (fuses.update(i, f2), r)
    }
}

/// Fuses, shadows and per-slot success flags after loading slots `0..n` in
/// order, slot `j` reading the word `raws[j]`.
pub open spec fn load_chain(
    fuses: Seq<HardwareFuse>,
    regs: Seq<ShadowRegister>,
    raws: Seq<u64>,
    n: nat,
) -> (Seq<HardwareFuse>, Seq<ShadowRegister>, Seq<bool>)
    decreases n,
{
    if n == 0 {
        (fuses, regs, Seq::empty())
    } else {
        let (f, r, ok) = load_chain(fuses, regs, raws, (n - 1) as nat);
        let (f2, r2, res) = load_outcome(f, r, n - 1, raws[n - 1]);
        (f2, r2, ok.push(res is Ok))
    }
}

/// Fuses and per-slot success flags after committing slots `0..n` in order,
/// slot `j` reading back the word `readbacks[j]`.
pub open spec fn commit_chain(
    fuses: Seq<HardwareFuse>,
    regs: Seq<ShadowRegister>,
    readbacks: Seq<u64>,
    n: nat,
) -> (Seq<HardwareFuse>, Seq<bool>)
    decreases n,
{
    if n == 0 {
        (fuses, Seq::empty())
    } else {
        let (f, ok) = commit_chain(fuses, regs, readbacks, (n - 1) as nat);
        let (f2, res) = commit_outcome(f, regs, n - 1, readbacks[n - 1]);
        (f2, ok.push(res is Ok))
    }
}

proof fn lemma_load_chain_prefix(
    fuses: Seq<HardwareFuse>,
    regs: Seq<ShadowRegister>,
    a: Seq<u64>,
    b: Seq<u64>,
    n: nat,
)
    requires
        n <= a.len(),
        n <= b.len(),
        forall|j: int| 0 <= j < n ==> a[j] == b[j],
    ensures
        load_chain(fuses, regs, a, n) == load_chain(fuses, regs, b, n),
    decreases n,
{
    if n > 0 {
        lemma_load_chain_prefix(fuses, regs, a, b, (n - 1) as nat);
    }
}

proof fn lemma_commit_chain_prefix(
    fuses: Seq<HardwareFuse>,
    regs: Seq<ShadowRegister>,
    a: Seq<u64>,
    b: Seq<u64>,
    n: nat,
)
    requires
        n <= a.len(),
        n <= b.len(),
        forall|j: int| 0 <= j < n ==> a[j] == b[j],
    ensures
        commit_chain(fuses, regs, a, n) == commit_chain(fuses, regs, b, n),
    decreases n,
{
    if n > 0 {
        lemma_commit_chain_prefix(fuses, regs, a, b, (n - 1) as nat);
    }
}

/// Number of `true` entries of `s`.
pub open spec fn count_true(s: Seq<bool>) -> nat
    decreases s.len(),
{
    if s.len() == 0 {
        0
    } else {
        count_true(s.drop_last()) + if s.last() {
            1nat
        } else {
            0nat
        }
    }
}

/// Slot `j` holds a loaded pair: the shadow register was committed with the
/// fuse's value.
pub open spec fn pair_loaded(fuses: Seq<HardwareFuse>, regs: Seq<ShadowRegister>, j: int) -> bool {
    j < regs.len() ==> regs[j].value == fuses[j].value_spec() && regs[j].integrity_ok()
        && regs[j].state == crate::shadow_register::RegisterState::Committed
}

/// Slot `j` holds a matching pair: same value, and the shadow checksum holds.
pub open spec fn pair_matches(fuses: Seq<HardwareFuse>, regs: Seq<ShadowRegister>, j: int) -> bool {
    j < regs.len() ==> regs[j].value == fuses[j].value_spec() && regs[j].integrity_ok()
}

/// Hardware fuses, each paired with the shadow register in the same slot.
pub struct FuseManager {
    fuses: Vec<HardwareFuse>,
    shadow_bank: ShadowRegisterBank,
}

impl FuseManager {
    /// The fuses in slot order.
    pub closed spec fn fuses(&self) -> Seq<HardwareFuse> {
        self.fuses@
    }

    /// The shadow registers in slot order.
    pub closed spec fn shadows(&self) -> Seq<ShadowRegister> {
        self.shadow_bank.regs()
    }

    /// Creates a manager with no fuses.
    pub fn new() -> (r: FuseManager)
        ensures
            r.fuses() == Seq::<HardwareFuse>::empty(),
            r.shadows() == Seq::<ShadowRegister>::empty(),
    {
        FuseManager { fuses: Vec::new(), shadow_bank: ShadowRegisterBank::new() }
    }

    /// Adds a fuse and its shadow register (id = slot, same address); returns the slot.
    pub fn add_fuse(&mut self, address: u64, mode: FuseMode) -> (r: Result<usize, ShadowError>)
        ensures
            old(self).fuses().len() >= FUSE_CAPACITY ==> r == Err::<usize, ShadowError>(
                ShadowError::FuseManagerFull,
            ) && final(self).fuses() == old(self).fuses() && final(self).shadows() == old(self).shadows(),
            old(self).fuses().len() < FUSE_CAPACITY ==> final(self).fuses() == old(self).fuses().push(HardwareFuse::initial(address, mode)),
            old(self).fuses().len() < FUSE_CAPACITY && old(self).shadows().len()
                < crate::shadow_register::BANK_CAPACITY ==> r == Ok::<usize, ShadowError>(
                old(self).fuses().len() as usize,
            ) && final(self).shadows() == old(self).shadows().push(
                ShadowRegister::initial(old(self).fuses().len() as u32, address),
            ),
            old(self).fuses().len() < FUSE_CAPACITY && old(self).shadows().len()
                >= crate::shadow_register::BANK_CAPACITY ==> r == Err::<usize, ShadowError>(
                ShadowError::BankFull,
            ) && final(self).shadows() == old(self).shadows(),
    {
        if self.fuses.len() >= FUSE_CAPACITY {
            return Err(ShadowError::FuseManagerFull);
        }
        let index = self.fuses.len();
        self.fuses.push(HardwareFuse::new(address, mode));
        match self.shadow_bank.add_register(index as u32, address) {
            Err(e) => Err(e),
            Ok(_) => Ok(index),
        }
    }

    /// Takes in the word `raw` read from fuse `fuse_index`, then writes and
    /// commits it into the paired shadow register.
    pub fn apply_load(&mut self, fuse_index: usize, raw: u64) -> (r: Result<(), ShadowError>)
        ensures
            (final(self).fuses(), final(self).shadows(), r) == load_outcome(
                old(self).fuses(),
                old(self).shadows(),
                fuse_index as int,
                raw,
            ),
    {
        if fuse_index >= self.fuses.len() {
            return Err(ShadowError::InvalidFuseIndex);
        }
        let mut fuse = self.fuses[fuse_index];
        let read = fuse.apply_read(raw);
        self.fuses.set(fuse_index, fuse);
        let value = match read {
            Err(e) => {
                return Err(e);
            },
            Ok(v) => v,
        };
        match self.shadow_bank.get_by_index_mut(fuse_index) {
            Some(shadow_reg) => {
                match shadow_reg.write(value) {
                    Err(e) => {
                        return Err(e);
                    },
                    Ok(()) => {},
                }
                match shadow_reg.commit() {
                    Err(e) => {
                        return Err(e);
                    },
                    Ok(()) => {},
                }
            },
            None => {},
        }
        Ok(())
    }

    /// Reads fuse `fuse_index` through `bus` and propagates it to its shadow register.
    pub fn load_to_shadow<B: FuseBus>(&mut self, bus: &mut B, fuse_index: usize) -> (r: Result<
        (),
        ShadowError,
    >)
        ensures
            exists|raw: u64|
                (final(self).fuses(), final(self).shadows(), r) == load_outcome(
                    old(self).fuses(),
                    old(self).shadows(),
                    fuse_index as int,
                    raw,
                ),
    {
        if fuse_index >= self.fuses.len() {
            let r = Err(ShadowError::InvalidFuseIndex);
            assert((self.fuses(), self.shadows(), r) == load_outcome(
                old(self).fuses(),
                old(self).shadows(),
                fuse_index as int,
                0,
            ));
            return r;
        }
        let raw = bus.read_word(self.fuses[fuse_index].address);
        let r = self.apply_load(fuse_index, raw);
        assert((self.fuses(), self.shadows(), r) == load_outcome(
            old(self).fuses(),
            old(self).shadows(),
            fuse_index as int,
            raw,
        ));
        r
    }

    /// Programs the value of shadow register `fuse_index` into its fuse through `bus`.
    pub fn commit_to_fuse<B: FuseBus>(&mut self, bus: &mut B, fuse_index: usize) -> (r: Result<
        (),
        ShadowError,
    >)
        ensures
            final(self).shadows() == old(self).shadows(),
            exists|readback: u64|
                (final(self).fuses(), r) == commit_outcome(
                    old(self).fuses(),
                    old(self).shadows(),
                    fuse_index as int,
                    readback,
                ),
    {
        if fuse_index >= self.fuses.len() {
            let r = Err(ShadowError::InvalidFuseIndex);
            assert((self.fuses(), r) == commit_outcome(
                old(self).fuses(),
                old(self).shadows(),
                fuse_index as int,
                0,
            ));
            return r;
        }
        let shadow_value = match self.shadow_bank.get_by_index(fuse_index) {
            Some(shadow_reg) => shadow_reg.read(),
            None => {
                let r = Err(ShadowError::ShadowNotFound);
                assert((self.fuses(), r) == commit_outcome(
                    old(self).fuses(),
                    old(self).shadows(),
                    fuse_index as int,
                    0,
                ));
                return r;
            },
        };
        let mut fuse = self.fuses[fuse_index];
        let r = fuse.program_to_hardware(bus, shadow_value);
        self.fuses.set(fuse_index, fuse);
        proof {
            let rb = choose|readback: u64|
                (fuse, r) == old(self).fuses()[fuse_index as int].program_outcome(
                    shadow_value,
                    readback,
                );
            assert((self.fuses(), r) == commit_outcome(
                old(self).fuses(),
                old(self).shadows(),
                fuse_index as int,
                rb,
            ));
        }
        r
    }

    /// Loads every fuse into its shadow register and returns how many loads
    /// succeeded; failed slots are skipped, not reported.
    pub fn load_all<B: FuseBus>(&mut self, bus: &mut B) -> (r: Result<usize, ShadowError>)
        ensures
            final(self).fuses().len() == old(self).fuses().len(),
            final(self).shadows().len() == old(self).shadows().len(),
            exists|raws: Seq<u64>|
                #![trigger load_chain(old(self).fuses(), old(self).shadows(), raws, old(self).fuses().len())]
                raws.len() == old(self).fuses().len() && ({
                    let (f, g, ok) = load_chain(
                        old(self).fuses(),
                        old(self).shadows(),
                        raws,
                        old(self).fuses().len(),
                    );
                    &&& final(self).fuses() == f
                    &&& final(self).shadows() == g
                    &&& r == Ok::<usize, ShadowError>(count_true(ok) as usize)
                    &&& forall|j: int|
                        0 <= j < ok.len() && #[trigger] ok[j] ==> pair_loaded(f, g, j)
                }),
    {
        let mut loaded: usize = 0;
        let mut i: usize = 0;
        let ghost mut ok: Seq<bool> = Seq::empty();
        let ghost mut raws: Seq<u64> = Seq::empty();
        let n = self.fuses.len();
        while i < n
            invariant
                i <= n,
                n == old(self).fuses().len(),
                self.fuses().len() == n,
                self.shadows().len() == old(self).shadows().len(),
                ok.len() == i,
                raws.len() == i,
                load_chain(old(self).fuses(), old(self).shadows(), raws, i as nat) == (self.fuses(), self.shadows(), ok),
                loaded == count_true(ok),
                loaded <= i,
                forall|j: int| 0 <= j < i && #[trigger] ok[j] ==> pair_loaded(self.fuses(), self.shadows(), j),
            decreases n - i,
        {
            let ghost before_f = self.fuses();
            let ghost before_r = self.shadows();
            let res = self.load_to_shadow(bus, i);
            proof {
                let raw = choose|raw: u64|
                    (self.fuses(), self.shadows(), res) == load_outcome(before_f, before_r, i as int, raw);
                assert((self.fuses(), self.shadows(), res) == load_outcome(before_f, before_r, i as int, raw));
                assert(forall|j: int| 0 <= j < n && j != i ==> self.fuses()[j] == before_f[j]);
                assert(forall|j: int| 0 <= j < self.shadows().len() && j != i ==> self.shadows()[j] == before_r[j]);
                let ok2 = ok.push(res is Ok);
                assert(ok2.drop_last() == ok);
                assert forall|j: int| 0 <= j < i + 1 && #[trigger] ok2[j] implies pair_loaded(self.fuses(), self.shadows(), j) by {
                    if j < i {
                        assert(ok[j]);
                        assert(pair_loaded(before_f, before_r, j));
                    }
                }
                let raws2 = raws.push(raw);
                lemma_load_chain_prefix(old(self).fuses(), old(self).shadows(), raws, raws2, i as nat);
                assert(load_chain(old(self).fuses(), old(self).shadows(), raws2, (i + 1) as nat) == (self.fuses(), self.shadows(), ok2));
                ok = ok2;
                raws = raws2;
            }
            if res.is_ok() {
                loaded = loaded + 1;
            }
            i = i + 1;
        }
        assert(load_chain(old(self).fuses(), old(self).shadows(), raws, old(self).fuses().len()) == (self.fuses(), self.shadows(), ok));
        Ok(loaded)
    }

    /// Commits every shadow register into its fuse and returns how many
    /// commits succeeded; failed slots are skipped, not reported.
    pub fn commit_all<B: FuseBus>(&mut self, bus: &mut B) -> (r: Result<usize, ShadowError>)
        ensures
            final(self).fuses().len() == old(self).fuses().len(),
            final(self).shadows() == old(self).shadows(),
            exists|readbacks: Seq<u64>|
                #![trigger commit_chain(old(self).fuses(), old(self).shadows(), readbacks, old(self).fuses().len())]
                readbacks.len() == old(self).fuses().len() && ({
                    let (f, ok) = commit_chain(
                        old(self).fuses(),
                        old(self).shadows(),
                        readbacks,
                        old(self).fuses().len(),
                    );
                    &&& final(self).fuses() == f
                    &&& r == Ok::<usize, ShadowError>(count_true(ok) as usize)
                    &&& forall|j: int|
                        0 <= j < ok.len() && #[trigger] ok[j] ==> j < final(self).shadows().len()
                            && f[j].value == final(self).shadows()[j].value
                            && f[j].state == FuseState::Programmed
                }),
    {
        let mut committed: usize = 0;
        let mut i: usize = 0;
        let ghost mut ok: Seq<bool> = Seq::empty();
        let ghost mut rbs: Seq<u64> = Seq::empty();
        let n = self.fuses.len();
        while i < n
            invariant
                i <= n,
                n == old(self).fuses().len(),
                self.fuses().len() == n,
                self.shadows() == old(self).shadows(),
                ok.len() == i,
                rbs.len() == i,
                commit_chain(old(self).fuses(), old(self).shadows(), rbs, i as nat) == (self.fuses(), ok),
                committed == count_true(ok),
                committed <= i,
                forall|j: int| 0 <= j < i && #[trigger] ok[j] ==> j < self.shadows().len()
                    && self.fuses()[j].value_spec() == self.shadows()[j].value
                    && self.fuses()[j].state_spec() == FuseState::Programmed,
            decreases n - i,
        {
            let ghost before_f = self.fuses();
            let res = self.commit_to_fuse(bus, i);
            proof {
                let rb = choose|rb: u64|
                    (self.fuses(), res) == commit_outcome(before_f, self.shadows(), i as int, rb);
                assert((self.fuses(), res) == commit_outcome(before_f, self.shadows(), i as int, rb));
                assert(forall|j: int| 0 <= j < n && j != i ==> self.fuses()[j] == before_f[j]);
                let ok2 = ok.push(res is Ok);
                assert(ok2.drop_last() == ok);
                assert forall|j: int| 0 <= j < i + 1 && #[trigger] ok2[j] implies j < self.shadows().len()
                    && self.fuses()[j].value_spec() == self.shadows()[j].value
                    && self.fuses()[j].state_spec() == FuseState::Programmed by {
                    if j < i {
                        assert(ok[j]);
                    }
                }
                let rbs2 = rbs.push(rb);
                lemma_commit_chain_prefix(old(self).fuses(), old(self).shadows(), rbs, rbs2, i as nat);
                assert(commit_chain(old(self).fuses(), old(self).shadows(), rbs2, (i + 1) as nat) == (self.fuses(), ok2));
                ok = ok2;
                rbs = rbs2;
            }
            if res.is_ok() {
                committed = committed + 1;
            }
            i = i + 1;
        }
        assert(commit_chain(old(self).fuses(), old(self).shadows(), rbs, old(self).fuses().len()) == (self.fuses(), ok));
        Ok(committed)
    }

    /// Whether every fuse equals its shadow register's value and every shadow
    /// register passes its checksum check.
    pub fn verify_all(&self) -> (r: bool)
        ensures
            r == (forall|j: int| 0 <= j < self.fuses().len() ==> #[trigger] pair_matches(self.fuses(), self.shadows(), j)),
    {
        let mut i: usize = 0;
        while i < self.fuses.len()
            invariant
                i <= self.fuses.len(),
                forall|j: int| 0 <= j < i ==> #[trigger] pair_matches(self.fuses(), self.shadows(), j),
            decreases self.fuses.len() - i,
        {
            let fuse_value = self.fuses[i].get_value();
            match self.shadow_bank.get_by_index(i) {
                Some(shadow_reg) => {
                    if shadow_reg.read() != fuse_value {
                        assert(!pair_matches(self.fuses(), self.shadows(), i as int));
                        return false;
                    }
                    if !shadow_reg.verify() {
                        assert(!pair_matches(self.fuses(), self.shadows(), i as int));
                        return false;
                    }
                },
                None => {},
            }
            i = i + 1;
        }
        true
    }

    /// Number of fuses.
    pub fn count(&self) -> (r: usize)
        ensures
            r == self.fuses().len(),
    {
        self.fuses.len()
    }

    /// The fuse in slot `index`.
    pub fn get_fuse(&self, index: usize) -> (r: Option<&HardwareFuse>)
        ensures
            match r {
                Some(f) => index < self.fuses().len() && *f == self.fuses()[index as int],
                None => index >= self.fuses().len(),
            },
    {
        if index < self.fuses.len() {
            Some(&self.fuses[index])
        } else {
            None
        }
    }

    /// The fuse in slot `index`, for modification.
    pub fn get_fuse_mut(&mut self, index: usize) -> (r: Option<&mut HardwareFuse>)
        ensures
            final(self).shadows() == old(self).shadows(),
            match r {
                Some(f) => index < old(self).fuses().len() && *f == old(self).fuses()[index as int]
                    && final(self).fuses() == old(self).fuses().update(index as int, *final(f)),
                None => index >= old(self).fuses().len() && final(self).fuses() == old(self).fuses(),
            },
    {
        if index < self.fuses.len() {
            Some(&mut self.fuses[index])
        } else {
            None
        }
    }

    /// The shadow register bank.
    pub fn get_shadow_bank(&self) -> (r: &ShadowRegisterBank)
        ensures
            r.regs() == self.shadows(),
    {
        &self.shadow_bank
    }

    /// The shadow register bank, for modification.
    pub fn get_shadow_bank_mut(&mut self) -> (r: &mut ShadowRegisterBank)
        ensures
            r.regs() == old(self).shadows(),
            final(self).shadows() == final(r).regs(),
            final(self).fuses() == old(self).fuses(),
    {
        &mut self.shadow_bank
    }
}

} // verus!
