//! Error-correcting codes: a positional Hamming-style code over 64-bit words
//! with 8 parity bits, and a detect-only block checksum.

use vstd::prelude::*;
use crate::error::ShadowError;

verus! {

/// Classification of a word by its syndrome.
#[derive(Debug, Clone, Copy, PartialEq, Eq, Structural)]
pub enum ECCError {
    /// The syndrome is zero.
    NoError,
    /// One syndrome bit (or one correctable data bit).
    SingleBit,
    /// Two syndrome bits.
    DoubleBit,
    /// Three or more syndrome bits.
    MultiBit,
}

/// What `decode` found.
#[derive(Debug)]
pub struct ECCSyndrome {
    /// Classification.
    pub error_type: ECCError,
    /// Bit index of the error, for single-bit errors.
    pub error_position: u8,
    /// Number of errors found.
    pub error_count: u8,
}

/// Bit `j` of `x` is set.
pub open spec fn bit64(x: u64, j: u64) -> bool {
    (x >> j) & 1 == 1
}

/// Bit `i` of `x` is set.
pub open spec fn bit8(x: u8, i: u8) -> bool {
    (x >> i) & 1 == 1
}

/// Data bit `j` belongs to parity group `i`.
pub open spec fn in_group(j: u64, i: u64) -> bool {
    j & (1u64 << i) != 0
}

/// Odd parity of the data bits below `n` that belong to group `i`.
pub open spec fn group_parity(data: u64, i: u64, n: nat) -> bool
    decreases n,
{
    if n == 0 {
        false
    } else {
        group_parity(data, i, (n - 1) as nat) != (in_group((n - 1) as u64, i) && bit64(
            data,
            (n - 1) as u64,
        ))
    }
}

/// Parity bits of groups below `k`.
pub open spec fn parity_upto(data: u64, k: nat) -> u8
    decreases k,
{
    if k == 0 {
        0u8
    } else {
        let p = parity_upto(data, (k - 1) as nat);
        if group_parity(data, (k - 1) as u64, 64) {
            p | (1u8 << ((k - 1) as u8))
        } else {
            p
        }
    }
}

/// The 8 parity bits of `data`: bit `i` is the parity of group `i`.
pub open spec fn hamming_parity(data: u64) -> u8 {
    parity_upto(data, 8)
}

/// Number of set bits of `x`.
pub open spec fn ones8(x: u8) -> nat
    decreases x,
{
    if x == 0 {
        0
    } else {
        (x % 2) as nat + ones8(x / 2)
    }
}

/// Syndrome of `data` against stored `parity`.
pub open spec fn syndrome_of(data: u64, parity: u8) -> u8 {
    hamming_parity(data) ^ parity
}

/// `decode` counts an error for this input.
pub open spec fn decode_detects(data: u64, parity: u8) -> bool {
    syndrome_of(data, parity) != 0
}

/// `decode` corrects a data bit for this input.
pub open spec fn decode_corrects(data: u64, parity: u8) -> bool {
    let s = syndrome_of(data, parity);
    s != 0 && ones8(s) != 1 && s < 64
}

/// What `decode` returns for `data` and `parity`.
pub open spec fn decode_result(data: u64, parity: u8) -> Result<(u64, ECCSyndrome), ShadowError> {
    let s = syndrome_of(data, parity);
    if s == 0 {
        Ok((data, ECCSyndrome { error_type: ECCError::NoError, error_position: 0, error_count: 0 }))
    } else if ones8(s) == 1 {
        Ok(
            (
                data,
                ECCSyndrome {
                    error_type: ECCError::SingleBit,
                    error_position: vstd::std_specs::bits::u8_trailing_zeros(s) as u8,
                    error_count: 1,
                },
            ),
        )
    } else if s < 64 {
        Ok(
            (
                data ^ (1u64 << s),
                ECCSyndrome { error_type: ECCError::SingleBit, error_position: s, error_count: 1 },
            ),
        )
    } else {
        Err(ShadowError::MultiBitUncorrectable)
    }
}

/// What `verify` returns for `data` and `parity`.
pub open spec fn classify(data: u64, parity: u8) -> ECCError {
    let n = ones8(syndrome_of(data, parity));
    if n == 0 {
        ECCError::NoError
    } else if n == 1 {
        ECCError::SingleBit
    } else if n == 2 {
        ECCError::DoubleBit
    } else {
        ECCError::MultiBit
    }
}

/// Counts the set bits of `x`.
fn count_ones8(x: u8) -> (r: u32)
    ensures
        r == ones8(x),
        r <= 8,
{
    let mut v: u8 = x;
    let mut n: u32 = 0;
    proof {
        lemma_ones8_bound(x);
    }
    while v != 0
        invariant
            n + ones8(v) == ones8(x),
            ones8(x) <= 8,
        decreases v,
    {
        n = n + (v % 2) as u32;
        v = v / 2;
    }
    n
}

proof fn lemma_ones8_le(x: u8, k: nat)
    requires
        x < pow2_nat(k),
    ensures
        ones8(x) <= k,
    decreases k,
{
    if x != 0 {
        assert(k > 0) by {
            if k == 0 {
                assert(pow2_nat(0) == 1);
            }
        }
        assert(pow2_nat(k) == 2 * pow2_nat((k - 1) as nat));
        lemma_ones8_le(x / 2, (k - 1) as nat);
    }
}

/// `2` to the power `k`.
spec fn pow2_nat(k: nat) -> nat
    decreases k,
{
    if k == 0 {
        1
    } else {
        2 * pow2_nat((k - 1) as nat)
    }
}

proof fn lemma_ones8_bound(x: u8)
    ensures
        ones8(x) <= 8,
{
    reveal_with_fuel(pow2_nat, 9);
    assert(pow2_nat(8) == 256);
    lemma_ones8_le(x, 8);
}

/// Hamming-style code over 64-bit words with running error counters.
pub struct HammingECC {
    errors_detected: u32,
    errors_corrected: u32,
}

impl HammingECC {
    /// Errors detected so far.
    pub closed spec fn detected(&self) -> u32 {
        self.errors_detected
    }

    /// Errors corrected so far.
    pub closed spec fn corrected(&self) -> u32 {
        self.errors_corrected
    }

    /// Creates a codec with zeroed counters.
    pub fn new() -> (r: HammingECC)
        ensures
            r.detected() == 0,
            r.corrected() == 0,
    {
        HammingECC { errors_detected: 0, errors_corrected: 0 }
    }

    /// Returns `data` unchanged with its 8 parity bits.
    pub fn encode(&self, data: u64) -> (r: (u64, u8))
        ensures
            r == (data, hamming_parity(data)),
    {
        let mut parity: u8 = 0;
        let mut i: u64 = 0;
        while i < 8
            invariant
                i <= 8,
                parity == parity_upto(data, i as nat),
            decreases 8 - i,
        {
            let mut bit_count: u32 = 0;
            let mut j: u64 = 0;
            while j < 64
                invariant
                    i < 8,
                    j <= 64,
                    bit_count <= j,
                    (bit_count % 2 == 1) == group_parity(data, i, j as nat),
                decreases 64 - j,
            {
                if (j & (1u64 << i)) != 0 {
                    if (data >> j) & 1 == 1 {
                        bit_count = bit_count + 1;
                    }
                }
                j = j + 1;
            }
            if bit_count % 2 == 1 {
                parity = parity | (1u8 << (i as u8));
            }
            i = i + 1;
        }
        (data, parity)
    }

    /// Checks `data` against `parity`, correcting a single data bit when the
    /// syndrome names one.
    pub fn decode(&mut self, data: u64, parity: u8) -> (r: Result<(u64, ECCSyndrome), ShadowError>)
        ensures
            r == decode_result(data, parity),
            final(self).detected() == if decode_detects(data, parity) {
                old(self).detected().wrapping_add(1)
            } else {
                old(self).detected()
            },
            final(self).corrected() == if decode_corrects(data, parity) {
                old(self).corrected().wrapping_add(1)
            } else {
                old(self).corrected()
            },
    {
        let (_, calculated_parity) = self.encode(data);
        let syndrome = calculated_parity ^ parity;
        if syndrome == 0 {
            return Ok(
                (
                    data,
                    ECCSyndrome { error_type: ECCError::NoError, error_position: 0, error_count: 0 },
                ),
            );
        }
        let error_count = count_ones8(syndrome);
        if error_count == 1 {
            self.errors_detected = self.errors_detected.wrapping_add(1);
            return Ok(
                (
                    data,
                    ECCSyndrome {
                        error_type: ECCError::SingleBit,
                        error_position: syndrome.trailing_zeros() as u8,
                        error_count: 1,
                    },
                ),
            );
        }
        let error_position = syndrome;
        if error_position < 64 {
            let corrected_data = data ^ (1u64 << error_position);
            self.errors_detected = self.errors_detected.wrapping_add(1);
            self.errors_corrected = self.errors_corrected.wrapping_add(1);
            return Ok(
                (
                    corrected_data,
                    ECCSyndrome { error_type: ECCError::SingleBit, error_position, error_count: 1 },
                ),
            );
        }
        self.errors_detected = self.errors_detected.wrapping_add(1);
        Err(ShadowError::MultiBitUncorrectable)
    }

    /// Classifies `data` against `parity` by the number of syndrome bits.
    pub fn verify(&self, data: u64, parity: u8) -> (r: ECCError)
        ensures
            r == classify(data, parity),
    {
        let (_, calculated_parity) = self.encode(data);
        let syndrome = calculated_parity ^ parity;
        let n = count_ones8(syndrome);
        if n == 0 {
            ECCError::NoError
        } else if n == 1 {
            ECCError::SingleBit
        } else if n == 2 {
            ECCError::DoubleBit
        } else {
            ECCError::MultiBit
        }
    }

    /// `(detected, corrected)` counters.
    pub fn get_error_stats(&self) -> (r: (u32, u32))
        ensures
            r == (self.detected(), self.corrected()),
    {
        (self.errors_detected, self.errors_corrected)
    }

    /// Zeroes both counters.
    pub fn reset_stats(&mut self)
        ensures
            final(self).detected() == 0,
            final(self).corrected() == 0,
    {
        self.errors_detected = 0;
        self.errors_corrected = 0;
    }
}


proof fn lemma_group_parity_xor(a: u64, b: u64, i: u64, n: nat)
    requires
        n <= 64,
    ensures
        group_parity(a ^ b, i, n) == (group_parity(a, i, n) != group_parity(b, i, n)),
    decreases n,
{
    if n > 0 {
        lemma_group_parity_xor(a, b, i, (n - 1) as nat);
        let j = (n - 1) as u64;
        assert(bit64(a ^ b, j) == (bit64(a, j) != bit64(b, j))) by (bit_vector)
            requires
                j < 64,
        ;
    }
}

proof fn lemma_group_parity_unit(p: u64, i: u64, n: nat)
    requires
        p < 64,
        n <= 64,
    ensures
        group_parity(1u64 << p, i, n) == (p < n && in_group(p, i)),
    decreases n,
{
    if n > 0 {
        lemma_group_parity_unit(p, i, (n - 1) as nat);
        let j = (n - 1) as u64;
        assert(bit64(1u64 << p, j) == (j == p)) by (bit_vector)
            requires
                j < 64,
                p < 64,
        ;
    }
}

proof fn lemma_parity_bits(x: u64, k: nat, i: u8)
    requires
        k <= 8,
        i < 8,
    ensures
        bit8(parity_upto(x, k), i) == (i < k && group_parity(x, i as u64, 64)),
    decreases k,
{
    if k == 0 {
        assert(bit8(0u8, i) == false) by (bit_vector);
    } else {
        lemma_parity_bits(x, (k - 1) as nat, i);
        let p = parity_upto(x, (k - 1) as nat);
        let j = (k - 1) as u8;
        assert(bit8(p | (1u8 << j), i) == (bit8(p, i) || i == j)) by (bit_vector)
            requires
                j < 8,
                i < 8,
        ;
    }
}

proof fn lemma_bits8_eq(s: u8, q: u8)
    requires
        forall|i: u8| 0 <= i < 8 ==> #[trigger] bit8(s, i) == bit8(q, i),
    ensures
        s == q,
{
    assert(bit8(s, 0) == bit8(q, 0));
    assert(bit8(s, 1) == bit8(q, 1));
    assert(bit8(s, 2) == bit8(q, 2));
    assert(bit8(s, 3) == bit8(q, 3));
    assert(bit8(s, 4) == bit8(q, 4));
    assert(bit8(s, 5) == bit8(q, 5));
    assert(bit8(s, 6) == bit8(q, 6));
    assert(bit8(s, 7) == bit8(q, 7));
    assert(s == q) by (bit_vector)
        requires
            ((s >> 0u8) & 1 == 1) == ((q >> 0u8) & 1 == 1),
            ((s >> 1u8) & 1 == 1) == ((q >> 1u8) & 1 == 1),
            ((s >> 2u8) & 1 == 1) == ((q >> 2u8) & 1 == 1),
            ((s >> 3u8) & 1 == 1) == ((q >> 3u8) & 1 == 1),
            ((s >> 4u8) & 1 == 1) == ((q >> 4u8) & 1 == 1),
            ((s >> 5u8) & 1 == 1) == ((q >> 5u8) & 1 == 1),
            ((s >> 6u8) & 1 == 1) == ((q >> 6u8) & 1 == 1),
            ((s >> 7u8) & 1 == 1) == ((q >> 7u8) & 1 == 1),
    ;
}

/// The parity bits are linear: the parity of `a ^ b` is the XOR of the parities.
pub proof fn lemma_parity_xor(a: u64, b: u64)
    ensures
        hamming_parity(a ^ b) == hamming_parity(a) ^ hamming_parity(b),
{
    let s = hamming_parity(a ^ b);
    let q = hamming_parity(a) ^ hamming_parity(b);
    assert forall|i: u8| 0 <= i < 8 implies #[trigger] bit8(s, i) == bit8(q, i) by {
        let ha = hamming_parity(a);
        let hb = hamming_parity(b);
        assert(bit8(ha ^ hb, i) == (bit8(ha, i) != bit8(hb, i))) by (bit_vector);
        lemma_parity_bits(a ^ b, 8, i);
        lemma_parity_bits(a, 8, i);
        lemma_parity_bits(b, 8, i);
        lemma_group_parity_xor(a, b, i as u64, 64);
    }
    lemma_bits8_eq(s, q);
}

/// Flipping data bit `p` of an encoded word makes the syndrome equal to `p`.
pub proof fn lemma_single_bit_syndrome(v: u64, p: u64)
    requires
        p < 64,
    ensures
        syndrome_of(v ^ (1u64 << p), hamming_parity(v)) == p as u8,
{
    let e = 1u64 << p;
    let s = syndrome_of(v ^ e, hamming_parity(v));
    let q = p as u8;
    assert forall|i: u8| 0 <= i < 8 implies #[trigger] bit8(s, i) == bit8(q, i) by {
        let ha = hamming_parity(v ^ e);
        let hb = hamming_parity(v);
        assert(bit8(ha ^ hb, i) == (bit8(ha, i) != bit8(hb, i))) by (bit_vector);
        lemma_parity_bits(v ^ e, 8, i);
        lemma_parity_bits(v, 8, i);
        lemma_group_parity_xor(v, e, i as u64, 64);
        lemma_group_parity_unit(p, i as u64, 64);
        assert(in_group(p, i as u64) == bit8(q, i)) by (bit_vector)
            requires
                p < 64,
                i < 8,
                q == p as u8,
        ;
    }
    lemma_bits8_eq(s, q);
}

/// Single-bit correction: flipping one data bit of an encoded word, at an index
/// with at least two bits set, is undone by `decode`, which reports the bit and
/// counts one detection and one correction.
pub proof fn lemma_decode_corrects_single_bit(v: u64, p: u64)
    requires
        p < 64,
        ones8(p as u8) >= 2,
    ensures
        decode_detects(v ^ (1u64 << p), hamming_parity(v)),
        decode_corrects(v ^ (1u64 << p), hamming_parity(v)),
        decode_result(v ^ (1u64 << p), hamming_parity(v)) matches Ok((d, syn)) && d == v
            && syn.error_type == ECCError::SingleBit && syn.error_position == p && syn.error_count
            == 1,
{
    lemma_single_bit_syndrome(v, p);
    let q = p as u8;
    assert(q != 0) by {
        if q == 0 {
            assert(ones8(0u8) == 0);
        }
    }
    assert(q < 64) by (bit_vector)
        requires
            p < 64,
            q == p as u8,
    ;
    assert((v ^ (1u64 << p)) ^ (1u64 << q) == v) by (bit_vector)
        requires
            p < 64,
            q == p as u8,
    ;
}

/// A freshly encoded word verifies, and decodes, without error.
pub proof fn lemma_encode_then_verify(v: u64)
    ensures
        classify(v, hamming_parity(v)) == ECCError::NoError,
        !decode_detects(v, hamming_parity(v)),
        decode_result(v, hamming_parity(v)) matches Ok((d, syn)) && d == v && syn.error_type
            == ECCError::NoError,
{
    let h = hamming_parity(v);
    assert(h ^ h == 0) by (bit_vector);
    assert(ones8(0u8) == 0);
}

/// Parity symbol `i` of a block: the XOR over the first `n` bytes `data[j]` of
/// `data[j] * (i + j + 1)`, all modulo 256.
pub open spec fn block_symbol(data: Seq<u8>, i: int, n: int) -> u8
    decreases n,
{
    if n <= 0 {
        0u8
    } else {
        block_symbol(data, i, n - 1) ^ data[n - 1].wrapping_mul((i + n) as u8)
    }
}

/// The parity symbols of `data`.
pub open spec fn block_parity(data: Seq<u8>, parity_symbols: nat) -> Seq<u8> {
    Seq::new(parity_symbols, |i: int| block_symbol(data, i, data.len() as int))
}

/// A detect-only block code: each data block carries parity symbols computed by
/// a position-weighted XOR. It corrects nothing.
pub struct ReedSolomonECC {
    block_size: usize,
    parity_symbols: usize,
    errors_detected: u32,
}

impl ReedSolomonECC {
    /// Total block size in bytes.
    pub closed spec fn block_size_spec(&self) -> usize {
        self.block_size
    }

    /// Number of parity symbols per block.
    pub closed spec fn parity_symbols_spec(&self) -> usize {
        self.parity_symbols
    }

    /// Blocks found corrupted so far.
    pub closed spec fn error_count(&self) -> u32 {
        self.errors_detected
    }

    /// Creates a codec for blocks of `block_size` bytes with `parity_symbols`
    /// parity bytes each.
    pub fn new(block_size: usize, parity_symbols: usize) -> (r: ReedSolomonECC)
        ensures
            r.block_size_spec() == block_size,
            r.parity_symbols_spec() == parity_symbols,
            r.error_count() == 0,
    {
        ReedSolomonECC { block_size, parity_symbols, errors_detected: 0 }
    }

    fn symbol(&self, data: &[u8], data_len: usize, i: usize) -> (r: u8)
        requires
            data_len <= data@.len(),
            i + data_len <= usize::MAX,
        ensures
            r == block_symbol(data@, i as int, data_len as int),
    {
        let mut parity: u8 = 0;
        let mut j: usize = 0;
        while j < data_len
            invariant
                j <= data_len,
                data_len <= data@.len(),
                i + data_len <= usize::MAX,
                parity == block_symbol(data@, i as int, j as int),
            decreases data_len - j,
        {
            parity = parity ^ data[j].wrapping_mul((i + j + 1) as u8);
            j = j + 1;
        }
        parity
    }

    /// Appends the parity symbols to `data`.
    pub fn encode(&self, data: &[u8]) -> (r: Result<Vec<u8>, ShadowError>)
        ensures
            data@.len() + self.parity_symbols_spec() > self.block_size_spec() ==> r == Err::<
                Vec<u8>,
                ShadowError,
            >(ShadowError::DataTooLarge),
            data@.len() + self.parity_symbols_spec() <= self.block_size_spec() ==> (r matches Ok(v)
                && v@ == data@ + block_parity(data@, self.parity_symbols_spec() as nat)),
    {
        if self.parity_symbols > self.block_size || data.len() > self.block_size
            - self.parity_symbols {
            return Err(ShadowError::DataTooLarge);
        }
        let mut encoded: Vec<u8> = Vec::new();
        let mut k: usize = 0;
        while k < data.len()
            invariant
                k <= data@.len(),
                encoded@ == data@.subrange(0, k as int),
            decreases data@.len() - k,
        {
            encoded.push(data[k]);
            k = k + 1;
        }
        let ghost parity_seq = block_parity(data@, self.parity_symbols as nat);
        let mut i: usize = 0;
        while i < self.parity_symbols
            invariant
                i <= self.parity_symbols,
                data@.len() + self.parity_symbols <= self.block_size,
                parity_seq == block_parity(data@, self.parity_symbols as nat),
                encoded@ == data@ + parity_seq.subrange(0, i as int),
            decreases self.parity_symbols - i,
        {
            let sym = self.symbol(data, data.len(), i);
            encoded.push(sym);
            proof {
                assert(parity_seq.subrange(0, i as int + 1) == parity_seq.subrange(0, i as int).push(
                    sym,
                ));
            }
            i = i + 1;
        }
        proof {
            assert(parity_seq.subrange(0, i as int) == parity_seq);
        }
        Ok(encoded)
    }

    /// Checks the parity symbols at the end of `encoded` and returns the data
    /// part; a mismatch is counted and reported.
    pub fn decode(&mut self, encoded: &[u8]) -> (r: Result<Vec<u8>, ShadowError>)
        ensures
            final(self).block_size_spec() == old(self).block_size_spec(),
            final(self).parity_symbols_spec() == old(self).parity_symbols_spec(),
            encoded@.len() < old(self).parity_symbols_spec() ==> r == Err::<Vec<u8>, ShadowError>(
                ShadowError::EncodedTooShort,
            ) && final(self).error_count() == old(self).error_count(),
            encoded@.len() >= old(self).parity_symbols_spec() ==> ({
                let n = encoded@.len() - old(self).parity_symbols_spec();
                let data = encoded@.subrange(0, n);
                if encoded@.subrange(n, encoded@.len() as int) == block_parity(
                    data,
                    old(self).parity_symbols_spec() as nat,
                ) {
                    (r matches Ok(v) && v@ == data) && final(self).error_count() == old(self).error_count()
                } else {
                    r == Err::<Vec<u8>, ShadowError>(ShadowError::BlockErrorDetected)
                        && final(self).error_count() == old(self).error_count().wrapping_add(1)
                }
            }),
    {
        if encoded.len() < self.parity_symbols {
            return Err(ShadowError::EncodedTooShort);
        }
        let data_len = encoded.len() - self.parity_symbols;
        let ghost data = encoded@.subrange(0, data_len as int);
        let ghost expected = block_parity(data, self.parity_symbols as nat);
        let total = encoded.len();
        let mut i: usize = 0;
        while i < self.parity_symbols
            invariant
                i <= self.parity_symbols,
                total == encoded@.len(),
                self.parity_symbols == old(self).parity_symbols,
                self.block_size == old(self).block_size,
                self.errors_detected == old(self).errors_detected,
                data_len + self.parity_symbols == encoded@.len(),
                data == encoded@.subrange(0, data_len as int),
                expected == block_parity(data, self.parity_symbols as nat),
                forall|k: int| 0 <= k < i ==> #[trigger] expected[k] == encoded@[data_len + k],
            decreases self.parity_symbols - i,
        {
            let sym = self.symbol(encoded, data_len, i);
            proof {
                lemma_block_symbol_prefix(encoded@, data, i as int, data_len as int);
            }
            if sym != encoded[data_len + i] {
                self.errors_detected = self.errors_detected.wrapping_add(1);
                proof {
                    let tail = encoded@.subrange(data_len as int, encoded@.len() as int);
                    assert(tail[i as int] != expected[i as int]);
                }
                return Err(ShadowError::BlockErrorDetected);
            }
            i = i + 1;
        }
        proof {
            let tail = encoded@.subrange(data_len as int, encoded@.len() as int);
            assert(tail =~= expected);
        }
        let mut out: Vec<u8> = Vec::new();
        let mut k: usize = 0;
        while k < data_len
            invariant
                k <= data_len,
                data_len <= encoded@.len(),
                out@ == encoded@.subrange(0, k as int),
            decreases data_len - k,
        {
            out.push(encoded[k]);
            k = k + 1;
        }
        Ok(out)
    }

    /// Blocks found corrupted so far.
    pub fn get_error_count(&self) -> (r: u32)
        ensures
            r == self.error_count(),
    {
        self.errors_detected
    }
}

proof fn lemma_block_symbol_prefix(full: Seq<u8>, data: Seq<u8>, i: int, n: int)
    requires
        0 <= n <= data.len() <= full.len(),
        forall|k: int| 0 <= k < data.len() ==> #[trigger] data[k] == full[k],
    ensures
        block_symbol(full, i, n) == block_symbol(data, i, n),
    decreases n,
{
    if n > 0 {
        lemma_block_symbol_prefix(full, data, i, n - 1);
    }
}

/// Which code protects 64-bit words.
#[derive(Debug, Clone, Copy, PartialEq, Eq, Structural)]
pub enum ECCStrategy {
    /// No protection.
    Disabled,
    /// The Hamming-style word code.
    Hamming,
    /// The block code (words pass through unprotected).
    ReedSolomon,
    /// Hamming for words, the block code for blocks.
    Hybrid,
}

/// Size of the blocks of the manager's block code.
pub const MANAGER_BLOCK_SIZE: usize = 64;

/// Parity symbols per block of the manager's block code.
pub const MANAGER_PARITY_SYMBOLS: usize = 8;

/// Applies the configured code to 64-bit words and keeps the error counters.
pub struct ECCManager {
    hamming: HammingECC,
    reed_solomon: ReedSolomonECC,
    strategy: ECCStrategy,
}

impl ECCManager {
    /// The configured strategy.
    pub closed spec fn strategy_spec(&self) -> ECCStrategy {
        self.strategy
    }

    /// The word codec.
    pub closed spec fn hamming_spec(&self) -> HammingECC {
        self.hamming
    }

    /// Errors counted by the block codec.
    pub closed spec fn block_errors(&self) -> u32 {
        self.reed_solomon.errors_detected
    }

    /// The Hamming code is applied to words.
    pub open spec fn uses_hamming(&self) -> bool {
        self.strategy_spec() == ECCStrategy::Hamming || self.strategy_spec() == ECCStrategy::Hybrid
    }

    /// Creates a manager with zeroed counters.
    pub fn new(strategy: ECCStrategy) -> (r: ECCManager)
        ensures
            r.strategy_spec() == strategy,
            r.hamming_spec().detected() == 0,
            r.hamming_spec().corrected() == 0,
            r.block_errors() == 0,
    {
        ECCManager {
            hamming: HammingECC::new(),
            reed_solomon: ReedSolomonECC::new(MANAGER_BLOCK_SIZE, MANAGER_PARITY_SYMBOLS),
            strategy,
        }
    }

    /// Encodes a word: `(data, parity)` under Hamming or Hybrid, `(data, 0)` otherwise.
    pub fn encode_u64(&self, data: u64) -> (r: (u64, u8))
        ensures
            r == if self.uses_hamming() {
                (data, hamming_parity(data))
            } else {
                (data, 0u8)
            },
    {
        match self.strategy {
            ECCStrategy::Hamming | ECCStrategy::Hybrid => self.hamming.encode(data),
            _ => (data, 0),
        }
    }

    /// Decodes a word with the Hamming code under Hamming or Hybrid; otherwise
    /// the word passes unchanged and without error.
    pub fn decode_u64(&mut self, data: u64, ecc: u8) -> (r: Result<(u64, ECCSyndrome), ShadowError>)
        ensures
            final(self).strategy_spec() == old(self).strategy_spec(),
            final(self).block_errors() == old(self).block_errors(),
            old(self).uses_hamming() ==> r == decode_result(data, ecc),
            old(self).uses_hamming() ==> final(self).hamming_spec().detected() == (if decode_detects(data, ecc) {
                old(self).hamming_spec().detected().wrapping_add(1)
            } else {
                old(self).hamming_spec().detected()
            }),
            old(self).uses_hamming() ==> final(self).hamming_spec().corrected() == (if decode_corrects(data, ecc) {
                old(self).hamming_spec().corrected().wrapping_add(1)
            } else {
                old(self).hamming_spec().corrected()
            }),
            !old(self).uses_hamming() ==> r == Ok::<(u64, ECCSyndrome), ShadowError>(
                (
                    data,
                    ECCSyndrome {
                        error_type: ECCError::NoError,
                        error_position: 0,
                        error_count: 0,
                    },
                ),
            ),
            !old(self).uses_hamming() ==> final(self).hamming_spec() == old(self).hamming_spec(),
    {
        match self.strategy {
            ECCStrategy::Hamming | ECCStrategy::Hybrid => self.hamming.decode(data, ecc),
            _ => Ok(
                (
                    data,
                    ECCSyndrome { error_type: ECCError::NoError, error_position: 0, error_count: 0 },
                ),
            ),
        }
    }

    /// `(detected, corrected)`: detections of both codes, corrections of the word code.
    pub fn get_total_errors(&self) -> (r: (u32, u32))
        ensures
            r == (self.hamming_spec().detected().wrapping_add(self.block_errors()),
            self.hamming_spec().corrected()),
    {
        let (hamming_detected, hamming_corrected) = self.hamming.get_error_stats();
        let rs_detected = self.reed_solomon.get_error_count();
        (hamming_detected.wrapping_add(rs_detected), hamming_corrected)
    }
}

} // verus!
