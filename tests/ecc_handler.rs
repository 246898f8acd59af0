use shadow_regs::ecc_handler::{ECCError, ECCManager, ECCStrategy, HammingECC, ReedSolomonECC};
use shadow_regs::error::ShadowError;

#[test]
fn test_ecc_manager_initialization() {
    let manager = ECCManager::new(ECCStrategy::Hamming);
    let (detected, corrected) = manager.get_total_errors();
    assert_eq!(detected, 0);
    assert_eq!(corrected, 0);
}

#[test]
fn test_ecc_manager_hybrid_strategy() {
    let manager = ECCManager::new(ECCStrategy::Hybrid);
    let test_data = 0xDEADBEEFCAFEBABE;
    let (encoded, ecc) = manager.encode_u64(test_data);
    assert_eq!(encoded, test_data);
    assert_ne!(ecc, 0);
}

#[test]
fn test_ecc_manager_none_strategy() {
    let manager = ECCManager::new(ECCStrategy::Disabled);
    let test_data = 0x123456789ABCDEF0;
    let (encoded, ecc) = manager.encode_u64(test_data);
    assert_eq!(encoded, test_data);
    assert_eq!(ecc, 0);
}

#[test]
fn test_hamming_ecc_initialization() {
    let hamming = HammingECC::new();
    let (detected, corrected) = hamming.get_error_stats();
    assert_eq!(detected, 0);
    assert_eq!(corrected, 0);
}

#[test]
fn test_hamming_ecc_encoding() {
    let hamming = HammingECC::new();
    let test_data = 0xFFFFFFFFFFFFFFFF;
    let (encoded, _parity) = hamming.encode(test_data);
    assert_eq!(encoded, test_data);
}

#[test]
fn test_hamming_ecc_no_error() {
    let mut hamming = HammingECC::new();
    let test_data = 0xFFFFFFFFFFFFFFFF;
    let (encoded, parity) = hamming.encode(test_data);
    let result = hamming.decode(encoded, parity);
    assert!(result.is_ok());
    let (decoded, syndrome) = result.unwrap();
    assert_eq!(decoded, test_data);
    assert_eq!(syndrome.error_type, ECCError::NoError);
    assert_eq!(syndrome.error_count, 0);
}

#[test]
fn test_hamming_single_bit_error_detection() {
    let mut hamming = HammingECC::new();
    let test_data = 0x0000000000000001;
    let (encoded, parity) = hamming.encode(test_data);
    let corrupted_data = encoded ^ (1u64 << 5);
    let result = hamming.decode(corrupted_data, parity);
    assert!(result.is_ok());
    let (decoded, syndrome) = result.unwrap();
    assert_eq!(syndrome.error_type, ECCError::SingleBit);
    assert_eq!(syndrome.error_count, 1);
    assert_eq!(decoded, test_data);
}

#[test]
fn test_hamming_single_bit_error_correction() {
    let mut hamming = HammingECC::new();
    let test_data = 0xCAFEBABEDEADBEEF;
    let (encoded, parity) = hamming.encode(test_data);
    let corrupted_data = encoded ^ (1u64 << 10);
    let result = hamming.decode(corrupted_data, parity);
    assert!(result.is_ok());
    let (decoded, syndrome) = result.unwrap();
    assert_eq!(decoded, test_data);
    assert_eq!(syndrome.error_type, ECCError::SingleBit);
    assert_eq!(syndrome.error_position, 10);
    let (detected, corrected) = hamming.get_error_stats();
    assert_eq!(detected, 1);
    assert_eq!(corrected, 1);
}

#[test]
fn test_hamming_error_correction_accuracy() {
    let mut hamming = HammingECC::new();
    for bit_pos in [11, 13, 22, 37, 58] {
        hamming.reset_stats();
        let test_data = 0x5555555555555555;
        let (encoded, parity) = hamming.encode(test_data);
        let corrupted_data = encoded ^ (1u64 << bit_pos);
        let result = hamming.decode(corrupted_data, parity);
        assert!(result.is_ok());
        let (decoded, _) = result.unwrap();
        assert_eq!(decoded, test_data, "Failed to correct bit {}", bit_pos);
    }
}

#[test]
fn test_hamming_verify_no_error() {
    let hamming = HammingECC::new();
    let test_data = 0x1234567890ABCDEF;
    let (encoded, parity) = hamming.encode(test_data);
    let error_type = hamming.verify(encoded, parity);
    assert_eq!(error_type, ECCError::NoError);
}

#[test]
fn test_hamming_verify_single_bit_error() {
    let hamming = HammingECC::new();
    let test_data = 0xAAAAAAAAAAAAAAAA;
    let (encoded, parity) = hamming.encode(test_data);
    let corrupted_parity = parity ^ 0x01;
    let error_type = hamming.verify(encoded, corrupted_parity);
    assert_eq!(error_type, ECCError::SingleBit);
}

#[test]
fn test_hamming_statistics_tracking() {
    let mut hamming = HammingECC::new();
    let test_data = 0xFEDCBA9876543210;
    for i in 1..6 {
        let (encoded, parity) = hamming.encode(test_data);
        let corrupted_data = encoded ^ (1u64 << (i * 10));
        let _ = hamming.decode(corrupted_data, parity);
    }
    let (detected, corrected) = hamming.get_error_stats();
    assert_eq!(detected, 5);
    assert_eq!(corrected, 5);
    hamming.reset_stats();
    let (detected, corrected) = hamming.get_error_stats();
    assert_eq!(detected, 0);
    assert_eq!(corrected, 0);
}

#[test]
fn test_reed_solomon_initialization() {
    let rs = ReedSolomonECC::new(64, 8);
    assert_eq!(rs.get_error_count(), 0);
}

#[test]
fn test_reed_solomon_encoding() {
    let rs = ReedSolomonECC::new(64, 8);
    let test_data = vec![0x01, 0x02, 0x03, 0x04];
    let result = rs.encode(&test_data);
    assert!(result.is_ok());
    let encoded = result.unwrap();
    assert_eq!(encoded.len(), test_data.len() + 8);
    assert_eq!(&encoded[..test_data.len()], &test_data[..]);
}

#[test]
fn test_reed_solomon_encoding_too_large() {
    let rs = ReedSolomonECC::new(16, 8);
    let test_data = vec![0xFF; 10];
    let result = rs.encode(&test_data);
    assert!(result.is_err());
    assert_eq!(result.unwrap_err().message(), "Data too large for block size");
}

#[test]
fn test_reed_solomon_decoding_valid() {
    let mut rs = ReedSolomonECC::new(64, 8);
    let test_data = vec![0xAA, 0xBB, 0xCC, 0xDD];
    let encoded = rs.encode(&test_data).unwrap();
    let decoded = rs.decode(&encoded);
    assert!(decoded.is_ok());
    assert_eq!(decoded.unwrap(), test_data);
}

#[test]
fn test_reed_solomon_error_detection() {
    let mut rs = ReedSolomonECC::new(64, 8);
    let test_data = vec![0x11, 0x22, 0x33, 0x44];
    let mut encoded = rs.encode(&test_data).unwrap();
    encoded[0] ^= 0xFF;
    let result = rs.decode(&encoded);
    assert!(result.is_err());
    assert_eq!(result.unwrap_err().message(), "Reed-Solomon error detected");
    assert_eq!(rs.get_error_count(), 1);
}

#[test]
fn test_reed_solomon_decoding_too_short() {
    let mut rs = ReedSolomonECC::new(64, 8);
    let short_data = vec![0x01, 0x02];
    let result = rs.decode(&short_data);
    assert!(result.is_err());
    assert_eq!(result.unwrap_err().message(), "Encoded data too short");
}

#[test]
fn test_ecc_manager_decode_with_no_strategy() {
    let mut manager = ECCManager::new(ECCStrategy::Disabled);
    let test_data = 0xFEEDFACECAFEBABE;
    let result = manager.decode_u64(test_data, 0);
    assert!(result.is_ok());
    let (decoded, syndrome) = result.unwrap();
    assert_eq!(decoded, test_data);
    assert_eq!(syndrome.error_type, ECCError::NoError);
}

#[test]
fn test_ecc_manager_total_errors() {
    let mut manager = ECCManager::new(ECCStrategy::Hamming);
    let test_data = 0x0123456789ABCDEF;
    let (encoded, parity) = manager.encode_u64(test_data);
    let corrupted = encoded ^ (1u64 << 20);
    let _ = manager.decode_u64(corrupted, parity);
    let (total_detected, total_corrected) = manager.get_total_errors();
    assert_eq!(total_detected, 1);
    assert_eq!(total_corrected, 1);
}

#[test]
fn test_hamming_multi_bit_error_uncorrectable() {
    let mut hamming = HammingECC::new();
    let test_data = 0x0F0F0F0F0F0F0F0F;
    let (encoded, parity) = hamming.encode(test_data);
    let bad_parity = parity ^ 0xFF;
    let result = hamming.decode(encoded, bad_parity);
    if result.is_err() {
        assert_eq!(
            result.unwrap_err().message(),
            "Multi-bit error detected - cannot correct"
        );
        let (detected, _) = hamming.get_error_stats();
        assert_eq!(detected, 1);
    }
}

#[test]
fn hamming_parity_exact_values() {
    let hamming = HammingECC::new();
    assert_eq!(hamming.encode(0xFFFFFFFFFFFFFFFF).1, 0x00);
    assert_eq!(hamming.encode(0xDEADBEEFCAFEBABE).1, 0x0D);
    assert_eq!(hamming.encode(0).1, 0x00);
    assert_eq!(hamming.encode(1u64 << 37).1, 37);
}

#[test]
fn single_bit_flip_is_corrected_for_every_multi_bit_index() {
    for &v in &[0u64, 0xDEADBEEFCAFEBABE, u64::MAX, 0x8000000000000001] {
        for p in 0..64u32 {
            if p.count_ones() < 2 {
                continue;
            }
            let mut hamming = HammingECC::new();
            let (encoded, parity) = hamming.encode(v);
            let (decoded, syndrome) = hamming.decode(encoded ^ (1u64 << p), parity).unwrap();
            assert_eq!(decoded, v);
            assert_eq!(syndrome.error_position as u32, p);
            assert_eq!(hamming.get_error_stats(), (1, 1));
        }
    }
}

#[test]
fn encoded_word_verifies_without_error() {
    let hamming = HammingECC::new();
    for &v in &[0u64, 1, 0x5555555555555555, 0xDEADBEEFCAFEBABE, u64::MAX] {
        let (d, parity) = hamming.encode(v);
        assert_eq!(hamming.verify(d, parity), ECCError::NoError);
    }
}

#[test]
fn verify_classifies_by_syndrome_weight() {
    let hamming = HammingECC::new();
    let (d, parity) = hamming.encode(0x1234);
    assert_eq!(hamming.verify(d, parity ^ 0x03), ECCError::DoubleBit);
    assert_eq!(hamming.verify(d, parity ^ 0x07), ECCError::MultiBit);
}

#[test]
fn parity_bit_error_is_detected_not_corrected() {
    let mut hamming = HammingECC::new();
    let (d, parity) = hamming.encode(0xABCD);
    let (decoded, syndrome) = hamming.decode(d, parity ^ 0x10).unwrap();
    assert_eq!(decoded, 0xABCD);
    assert_eq!(syndrome.error_type, ECCError::SingleBit);
    assert_eq!(syndrome.error_position, 4);
    assert_eq!(hamming.get_error_stats(), (1, 0));
}

#[test]
fn multi_bit_error_reports_error_kind() {
    let mut hamming = HammingECC::new();
    let (d, parity) = hamming.encode(7);
    assert!(matches!(
        hamming.decode(d, parity ^ 0xC3),
        Err(ShadowError::MultiBitUncorrectable)
    ));
    assert_eq!(hamming.get_error_stats(), (1, 0));
}

#[test]
fn block_parity_exact_values() {
    let rs = ReedSolomonECC::new(64, 8);
    let encoded = rs.encode(&[1, 2, 3, 4]).unwrap();
    assert_eq!(encoded, vec![1, 2, 3, 4, 28, 28, 28, 0, 60, 52, 36, 40]);
}

#[test]
fn block_parity_larger_than_block_is_rejected() {
    let rs = ReedSolomonECC::new(4, 8);
    assert_eq!(rs.encode(&[]), Err(ShadowError::DataTooLarge));
    let exact = ReedSolomonECC::new(12, 8);
    assert_eq!(exact.encode(&[9, 9, 9, 9]).unwrap().len(), 12);
}
