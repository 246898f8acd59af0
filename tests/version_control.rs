use shadow_regs::error::ShadowError;
use shadow_regs::version_control::{VersionEntry, VersionHistory, VersionedShadowRegister};

#[test]
fn test_version_entry_initialization() {
    let entry = VersionEntry::new();
    assert_eq!(entry.version, 0);
    assert_eq!(entry.value, 0);
    assert_eq!(entry.timestamp, 0);
    assert_eq!(entry.checksum, 0);
    assert!(!entry.is_valid());
}

#[test]
fn test_version_entry_from_state() {
    let version = 1;
    let value = 0xABCDEF01;
    let timestamp = 1000;
    let entry = VersionEntry::from_state(version, value, timestamp);
    assert_eq!(entry.get_version(), version);
    assert_eq!(entry.get_value(), value);
    assert_eq!(entry.get_timestamp(), timestamp);
    assert!(entry.is_valid());
    assert!(entry.verify());
}

#[test]
fn test_version_entry_checksum_validation() {
    let entry = VersionEntry::from_state(1, 0x12345678, 2000);
    assert!(entry.verify());
    let mut invalid_entry = entry;
    invalid_entry.checksum = 0xFFFFFFFF;
    assert!(!invalid_entry.verify());
}

#[test]
fn test_version_history_initialization() {
    let history = VersionHistory::new();
    assert_eq!(history.count(), 0);
    assert_eq!(history.current_version(), 0);
    assert!(history.get_latest().is_none());
}

#[test]
fn test_version_history_push_and_get() {
    let mut history = VersionHistory::new();
    let v1 = history.push(0x1111, 100);
    assert_eq!(v1, 0);
    assert_eq!(history.count(), 1);
    let v2 = history.push(0x2222, 200);
    assert_eq!(v2, 1);
    assert_eq!(history.count(), 2);
    let entry1 = history.get(0).unwrap();
    assert_eq!(entry1.get_value(), 0x1111);
    assert_eq!(entry1.get_timestamp(), 100);
    let entry2 = history.get(1).unwrap();
    assert_eq!(entry2.get_value(), 0x2222);
    assert_eq!(entry2.get_timestamp(), 200);
}

#[test]
fn test_version_history_circular_buffer_wraparound() {
    let mut history = VersionHistory::new();
    for i in 0..16 {
        let version = history.push(0x1000 + i as u64, i as u64 * 100);
        assert_eq!(version, i);
    }
    assert_eq!(history.count(), 16);
    let v17 = history.push(0x2000, 1700);
    assert_eq!(v17, 16);
    assert_eq!(history.count(), 16);
    assert!(history.get(0).is_none());
    assert!(history.get(16).is_some());
    assert_eq!(history.get(16).unwrap().get_value(), 0x2000);
}

#[test]
fn test_version_history_get_latest() {
    let mut history = VersionHistory::new();
    assert!(history.get_latest().is_none());
    history.push(0xAAAA, 100);
    history.push(0xBBBB, 200);
    history.push(0xCCCC, 300);
    let latest = history.get_latest().unwrap();
    assert_eq!(latest.get_value(), 0xCCCC);
    assert_eq!(latest.get_timestamp(), 300);
    assert_eq!(latest.get_version(), 2);
}

#[test]
fn test_version_history_get_by_offset() {
    let mut history = VersionHistory::new();
    for i in 0..5 {
        history.push(0x1000 + i as u64, i as u64 * 100);
    }
    let entry0 = history.get_by_offset(0).unwrap();
    assert_eq!(entry0.get_version(), 4);
    assert_eq!(entry0.get_value(), 0x1004);
    let entry1 = history.get_by_offset(1).unwrap();
    assert_eq!(entry1.get_version(), 3);
    assert_eq!(entry1.get_value(), 0x1003);
    let entry4 = history.get_by_offset(4).unwrap();
    assert_eq!(entry4.get_version(), 0);
    assert_eq!(entry4.get_value(), 0x1000);
    assert!(history.get_by_offset(5).is_none());
}

#[test]
fn test_versioned_shadow_register_write_and_rollback() {
    let mut vreg = VersionedShadowRegister::new(1, 0x1000);
    let v1 = vreg.write_versioned(0xAAAA, 100).unwrap();
    assert_eq!(v1, 0);
    vreg.get_register_mut().commit().unwrap();
    let v2 = vreg.write_versioned(0xBBBB, 200).unwrap();
    assert_eq!(v2, 1);
    vreg.get_register_mut().commit().unwrap();
    let v3 = vreg.write_versioned(0xCCCC, 300).unwrap();
    assert_eq!(v3, 2);
    vreg.get_register_mut().commit().unwrap();
    assert_eq!(vreg.get_register().read(), 0xCCCC);
    assert!(vreg.rollback_to_version(1).is_ok());
    assert_eq!(vreg.get_register().read(), 0xBBBB);
    assert!(vreg.rollback_to_version(0).is_ok());
    assert_eq!(vreg.get_register().read(), 0xAAAA);
}

#[test]
fn test_versioned_shadow_register_rollback_by_offset() {
    let mut vreg = VersionedShadowRegister::new(2, 0x2000);
    vreg.write_versioned(0x1111, 100).unwrap();
    vreg.get_register_mut().commit().unwrap();
    vreg.write_versioned(0x2222, 200).unwrap();
    vreg.get_register_mut().commit().unwrap();
    vreg.write_versioned(0x3333, 300).unwrap();
    vreg.get_register_mut().commit().unwrap();
    vreg.write_versioned(0x4444, 400).unwrap();
    vreg.get_register_mut().commit().unwrap();
    assert_eq!(vreg.get_register().read(), 0x4444);
    assert!(vreg.rollback_by_offset(1).is_ok());
    assert_eq!(vreg.get_register().read(), 0x3333);
    vreg.write_versioned(0x5555, 500).unwrap();
    vreg.get_register_mut().commit().unwrap();
    assert!(vreg.rollback_by_offset(2).is_ok());
    assert_eq!(vreg.get_register().read(), 0x3333);
}

#[test]
fn test_versioned_shadow_register_rollback_errors() {
    let mut vreg = VersionedShadowRegister::new(3, 0x3000);
    assert!(vreg.rollback_to_version(999).is_err());
    assert!(vreg.rollback_by_offset(100).is_err());
}

#[test]
fn test_version_overflow_after_16_versions() {
    let mut vreg = VersionedShadowRegister::new(4, 0x4000);
    for i in 0..20 {
        vreg.write_versioned(0x1000 + i as u64, i as u64 * 100).unwrap();
    }
    let history = vreg.get_history();
    assert_eq!(history.count(), 16);
    let latest = history.get_latest().unwrap();
    assert_eq!(latest.get_version(), 19);
    assert!(history.get(0).is_none());
    assert!(history.get(1).is_none());
    assert!(history.get(2).is_none());
    assert!(history.get(3).is_none());
    assert!(history.get(4).is_some());
    assert!(history.get(19).is_some());
}

#[test]
fn test_version_history_verify_all() {
    let mut history = VersionHistory::new();
    history.push(0xAAAA, 100);
    history.push(0xBBBB, 200);
    history.push(0xCCCC, 300);
    assert!(history.verify_all());
}

#[test]
fn test_versioned_shadow_register_diff_versions() {
    let mut vreg = VersionedShadowRegister::new(5, 0x5000);
    vreg.write_versioned(0xAAAA, 100).unwrap();
    vreg.write_versioned(0xBBBB, 200).unwrap();
    vreg.write_versioned(0xCCCC, 300).unwrap();
    let diff = vreg.diff_versions(0, 2);
    assert!(diff.is_some());
    let (val1, val2) = diff.unwrap();
    assert_eq!(val1, 0xAAAA);
    assert_eq!(val2, 0xCCCC);
    assert!(vreg.diff_versions(0, 999).is_none());
}

#[test]
fn test_versioned_shadow_register_get_all_versions() {
    let mut vreg = VersionedShadowRegister::new(6, 0x6000);
    for i in 0..5 {
        vreg.write_versioned(0x1000 + i as u64, i as u64 * 100).unwrap();
    }
    let versions = vreg.get_all_versions();
    assert_eq!(versions.len(), 5);
    assert_eq!(versions, vec![4, 3, 2, 1, 0]);
}

#[test]
fn test_version_history_clear() {
    let mut history = VersionHistory::new();
    history.push(0xAAAA, 100);
    history.push(0xBBBB, 200);
    assert_eq!(history.count(), 2);
    history.clear();
    assert_eq!(history.count(), 0);
    assert!(history.get_latest().is_none());
    assert_eq!(history.current_version(), 2);
    let next_version = history.push(0xCCCC, 300);
    assert_eq!(next_version, 2);
}

#[test]
fn eviction_window_after_twenty_pushes_with_clears() {
    let mut history = VersionHistory::new();
    for i in 0..20u64 {
        if i == 3 || i == 9 {
            history.clear();
        }
        history.push(0x100 + i, i);
    }
    assert_eq!(history.current_version(), 20);
    let mut plain = VersionHistory::new();
    for i in 0..20u64 {
        plain.push(0x100 + i, i);
    }
    assert_eq!(plain.current_version(), 20);
    for v in 0..4 {
        assert!(plain.get(v).is_none());
    }
    for v in 4..20 {
        assert_eq!(plain.get(v).unwrap().get_value(), 0x100 + v as u64);
    }
    assert!(plain.get(20).is_none());
    assert!(plain.verify_all());
}

#[test]
fn entry_checksum_folds_value_and_timestamp() {
    let entry = VersionEntry::from_state(3, 0x1111_2222_3333_4444, 0x0000_0000_0000_0004);
    assert_eq!(entry.checksum, 0x1111_2222 ^ 0x3333_4440);
}

#[test]
fn rollback_reports_error_kinds() {
    let mut vreg = VersionedShadowRegister::new(3, 0x3000);
    assert_eq!(vreg.rollback_to_version(0), Err(ShadowError::VersionNotFound));
    assert_eq!(vreg.rollback_by_offset(0), Err(ShadowError::OffsetOutOfRange));
    vreg.write_versioned(0x10, 1).unwrap();
    vreg.get_register_mut().lock();
    assert_eq!(vreg.rollback_by_offset(0), Err(ShadowError::WriteProtected));
    assert_eq!(vreg.write_versioned(0x20, 2), Err(ShadowError::WriteProtected));
    assert_eq!(vreg.get_history().count(), 1);
}

#[test]
fn rollback_is_a_new_write() {
    let mut vreg = VersionedShadowRegister::new(1, 0x10);
    vreg.write_versioned(0xA, 1).unwrap();
    vreg.write_versioned(0xB, 2).unwrap();
    let before = vreg.get_register().get_version();
    vreg.rollback_to_version(0).unwrap();
    assert_eq!(vreg.get_register().read(), 0xA);
    assert_eq!(vreg.get_register().get_version(), before + 1);
    assert_eq!(vreg.get_history().current_version(), 2);
}
