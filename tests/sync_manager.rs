use std::collections::HashMap;

use shadow_regs::error::ShadowError;
use shadow_regs::fuse_manager::{FuseBus, FuseManager, FuseMode};
use shadow_regs::sync_manager::{SyncDirection, SyncManager, SyncPolicy, SyncStatus};

/// Fuse words held in memory, as a stand-in for the physical fuse array.
struct MemoryBus {
    words: HashMap<u64, u64>,
}

impl FuseBus for MemoryBus {
    fn read_word(&mut self, address: u64) -> u64 {
        *self.words.get(&address).unwrap_or(&0)
    }

    fn write_word(&mut self, address: u64, value: u64) {
        self.words.insert(address, value);
    }
}

fn create_test_memory() -> MemoryBus {
    MemoryBus { words: HashMap::new() }
}

fn create_test_fuse_manager() -> FuseManager {
    let mut manager = FuseManager::new();
    manager.add_fuse(0x00, FuseMode::OTP).unwrap();
    manager.add_fuse(0x20, FuseMode::MTP).unwrap();
    manager.add_fuse(0x40, FuseMode::OTP).unwrap();
    manager
}

#[test]
fn test_sync_manager_initialization() {
    let sync_mgr = SyncManager::new();
    assert_eq!(sync_mgr.get_status(), SyncStatus::Idle);
    assert_eq!(sync_mgr.is_syncing(), false);
    assert_eq!(sync_mgr.get_sync_count(), 0);
}

#[test]
fn test_sync_manager_reset() {
    let mut sync_mgr = SyncManager::new();
    sync_mgr.try_acquire().unwrap();
    sync_mgr.release(true);
    assert_eq!(sync_mgr.get_status(), SyncStatus::Success);
    sync_mgr.reset();
    assert_eq!(sync_mgr.get_status(), SyncStatus::Idle);
    assert_eq!(sync_mgr.is_syncing(), false);
}

#[test]
fn test_sync_fuse_to_shadow_force_overwrite() {
    let mut memory = create_test_memory();
    let mut fuse_mgr = create_test_fuse_manager();
    let mut sync_mgr = SyncManager::new();
    if let Some(fuse) = fuse_mgr.get_fuse_mut(0) {
        fuse.program_to_hardware(&mut memory, 0xDEADBEEF).unwrap();
    }
    if let Some(shadow_reg) = fuse_mgr.get_shadow_bank_mut().get_register_mut(0) {
        shadow_reg.write(0x11111111).unwrap();
        shadow_reg.commit().unwrap();
    }
    let result = sync_mgr.sync_register(
        &mut fuse_mgr,
        &mut memory,
        0,
        SyncDirection::FuseToShadow,
        SyncPolicy::ForceOverwrite,
    );
    assert!(result.is_ok());
    assert_eq!(sync_mgr.get_status(), SyncStatus::Success);
    assert_eq!(sync_mgr.get_sync_count(), 1);
    let shadow_value = fuse_mgr.get_shadow_bank().get_register(0).unwrap().read();
    assert_eq!(shadow_value, 0xDEADBEEF);
}

#[test]
fn test_sync_shadow_to_fuse_force_overwrite() {
    let mut memory = create_test_memory();
    let mut fuse_mgr = create_test_fuse_manager();
    let mut sync_mgr = SyncManager::new();
    if let Some(shadow_reg) = fuse_mgr.get_shadow_bank_mut().get_register_mut(0) {
        shadow_reg.write(0xCAFEBABE).unwrap();
        shadow_reg.commit().unwrap();
    }
    let result = sync_mgr.sync_register(
        &mut fuse_mgr,
        &mut memory,
        0,
        SyncDirection::ShadowToFuse,
        SyncPolicy::ForceOverwrite,
    );
    assert!(result.is_ok());
    assert_eq!(sync_mgr.get_status(), SyncStatus::Success);
    let fuse_value = fuse_mgr.get_fuse(0).unwrap().get_value();
    assert_eq!(fuse_value, 0xCAFEBABE);
}

#[test]
fn test_sync_policy_initialize_only_skips_initialized() {
    let mut memory = create_test_memory();
    let mut fuse_mgr = create_test_fuse_manager();
    let mut sync_mgr = SyncManager::new();
    if let Some(shadow_reg) = fuse_mgr.get_shadow_bank_mut().get_register_mut(0) {
        shadow_reg.write(0x12345678).unwrap();
        shadow_reg.commit().unwrap();
    }
    if let Some(fuse) = fuse_mgr.get_fuse_mut(0) {
        fuse.program_to_hardware(&mut memory, 0x87654321).unwrap();
    }
    let result = sync_mgr.sync_register(
        &mut fuse_mgr,
        &mut memory,
        0,
        SyncDirection::FuseToShadow,
        SyncPolicy::InitializeOnly,
    );
    assert!(result.is_ok());
    let shadow_value = fuse_mgr.get_shadow_bank().get_register(0).unwrap().read();
    assert_eq!(shadow_value, 0x12345678);
}

#[test]
fn test_sync_policy_initialize_only_syncs_uninitialized() {
    let mut memory = create_test_memory();
    let mut fuse_mgr = create_test_fuse_manager();
    let mut sync_mgr = SyncManager::new();
    if let Some(fuse) = fuse_mgr.get_fuse_mut(0) {
        fuse.program_to_hardware(&mut memory, 0xAABBCCDD).unwrap();
    }
    let result = sync_mgr.sync_register(
        &mut fuse_mgr,
        &mut memory,
        0,
        SyncDirection::FuseToShadow,
        SyncPolicy::InitializeOnly,
    );
    assert!(result.is_ok());
    let shadow_value = fuse_mgr.get_shadow_bank().get_register(0).unwrap().read();
    assert_eq!(shadow_value, 0xAABBCCDD);
}

#[test]
fn test_sync_shadow_to_fuse_initialize_only_skips_programmed() {
    let mut memory = create_test_memory();
    let mut fuse_mgr = create_test_fuse_manager();
    let mut sync_mgr = SyncManager::new();
    if let Some(fuse) = fuse_mgr.get_fuse_mut(0) {
        fuse.program_to_hardware(&mut memory, 0x99999999).unwrap();
    }
    if let Some(shadow_reg) = fuse_mgr.get_shadow_bank_mut().get_register_mut(0) {
        shadow_reg.write(0x88888888).unwrap();
        shadow_reg.commit().unwrap();
    }
    let result = sync_mgr.sync_register(
        &mut fuse_mgr,
        &mut memory,
        0,
        SyncDirection::ShadowToFuse,
        SyncPolicy::InitializeOnly,
    );
    assert!(result.is_ok());
    let fuse_value = fuse_mgr.get_fuse(0).unwrap().get_value();
    assert_eq!(fuse_value, 0x99999999);
}

#[test]
fn test_sync_bidirectional_no_conflict() {
    let mut memory = create_test_memory();
    let mut fuse_mgr = create_test_fuse_manager();
    let mut sync_mgr = SyncManager::new();
    let value = 0x11223344u64;
    if let Some(fuse) = fuse_mgr.get_fuse_mut(0) {
        fuse.program_to_hardware(&mut memory, value).unwrap();
    }
    if let Some(shadow_reg) = fuse_mgr.get_shadow_bank_mut().get_register_mut(0) {
        shadow_reg.write(value).unwrap();
        shadow_reg.commit().unwrap();
    }
    let result = sync_mgr.sync_register(
        &mut fuse_mgr,
        &mut memory,
        0,
        SyncDirection::Bidirectional,
        SyncPolicy::ForceOverwrite,
    );
    assert!(result.is_ok());
    assert_eq!(sync_mgr.get_status(), SyncStatus::Success);
}

#[test]
fn test_sync_bidirectional_conflict_force_overwrite() {
    let mut memory = create_test_memory();
    let mut fuse_mgr = create_test_fuse_manager();
    let mut sync_mgr = SyncManager::new();
    if let Some(fuse) = fuse_mgr.get_fuse_mut(1) {
        fuse.program_to_hardware(&mut memory, 0xAAAAAAAA).unwrap();
    }
    if let Some(shadow_reg) = fuse_mgr.get_shadow_bank_mut().get_register_mut(1) {
        shadow_reg.write(0xBBBBBBBB).unwrap();
        shadow_reg.commit().unwrap();
    }
    let result = sync_mgr.sync_register(
        &mut fuse_mgr,
        &mut memory,
        1,
        SyncDirection::Bidirectional,
        SyncPolicy::ForceOverwrite,
    );
    assert!(result.is_ok());
    let fuse_value = fuse_mgr.get_fuse(1).unwrap().get_value();
    assert_eq!(fuse_value, 0xBBBBBBBB);
}

#[test]
fn test_sync_bidirectional_conflict_resolve_by_version() {
    let mut memory = create_test_memory();
    let mut fuse_mgr = create_test_fuse_manager();
    let mut sync_mgr = SyncManager::new();
    if let Some(fuse) = fuse_mgr.get_fuse_mut(1) {
        fuse.program_to_hardware(&mut memory, 0xFFFFFFFF).unwrap();
    }
    if let Some(shadow_reg) = fuse_mgr.get_shadow_bank_mut().get_register_mut(1) {
        shadow_reg.write(0xEEEEEEEE).unwrap();
        shadow_reg.commit().unwrap();
    }
    let result = sync_mgr.sync_register(
        &mut fuse_mgr,
        &mut memory,
        1,
        SyncDirection::Bidirectional,
        SyncPolicy::ConflictResolve,
    );
    assert!(result.is_ok());
    let fuse_value = fuse_mgr.get_fuse(1).unwrap().get_value();
    assert_eq!(fuse_value, 0xEEEEEEEE);
}

#[test]
fn test_sync_bidirectional_conflict_detection() {
    let mut memory = create_test_memory();
    let mut fuse_mgr = create_test_fuse_manager();
    let mut sync_mgr = SyncManager::new();
    if let Some(fuse) = fuse_mgr.get_fuse_mut(1) {
        fuse.program_to_hardware(&mut memory, 0x12345678).unwrap();
    }
    if let Some(shadow_reg) = fuse_mgr.get_shadow_bank_mut().get_register_mut(1) {
        shadow_reg.write(0x87654321).unwrap();
        shadow_reg.commit().unwrap();
    }
    let result = sync_mgr.sync_register(
        &mut fuse_mgr,
        &mut memory,
        1,
        SyncDirection::Bidirectional,
        SyncPolicy::InitializeOnly,
    );
    assert!(result.is_err());
    assert_eq!(result.unwrap_err().message(), "Sync conflict detected");
    assert_eq!(sync_mgr.get_status(), SyncStatus::Failed);
}

#[test]
fn test_sync_all_registers_success() {
    let mut memory = create_test_memory();
    let mut fuse_mgr = create_test_fuse_manager();
    let mut sync_mgr = SyncManager::new();
    for i in 0..fuse_mgr.count() {
        if let Some(shadow_reg) = fuse_mgr.get_shadow_bank_mut().get_register_mut(i as u32) {
            shadow_reg.write(0x1000 + i as u64).unwrap();
            shadow_reg.commit().unwrap();
        }
    }
    let result = sync_mgr.sync_all(
        &mut fuse_mgr,
        &mut memory,
        SyncDirection::ShadowToFuse,
        SyncPolicy::ForceOverwrite,
    );
    assert_eq!(result.status, SyncStatus::Success);
    assert_eq!(result.synced_count, 3);
    assert_eq!(result.failed_count, 0);
    assert_eq!(result.conflict_count, 0);
    for i in 0..fuse_mgr.count() {
        let fuse_value = fuse_mgr.get_fuse(i).unwrap().get_value();
        assert_eq!(fuse_value, 0x1000 + i as u64);
    }
}

#[test]
fn test_sync_concurrent_protection() {
    let mut sync_mgr = SyncManager::new();
    let mut memory = create_test_memory();
    let mut fuse_mgr = create_test_fuse_manager();
    sync_mgr.try_acquire().unwrap();
    let result = sync_mgr.sync_register(
        &mut fuse_mgr,
        &mut memory,
        0,
        SyncDirection::FuseToShadow,
        SyncPolicy::ForceOverwrite,
    );
    assert!(result.is_err());
    assert_eq!(result.unwrap_err().message(), "Sync already in progress");
    sync_mgr.reset();
}

#[test]
fn test_sync_status_tracking() {
    let mut sync_mgr = SyncManager::new();
    let mut memory = create_test_memory();
    let mut fuse_mgr = create_test_fuse_manager();
    assert_eq!(sync_mgr.get_status(), SyncStatus::Idle);
    if let Some(shadow_reg) = fuse_mgr.get_shadow_bank_mut().get_register_mut(0) {
        shadow_reg.write(0x55555555).unwrap();
        shadow_reg.commit().unwrap();
    }
    sync_mgr
        .sync_register(
            &mut fuse_mgr,
            &mut memory,
            0,
            SyncDirection::ShadowToFuse,
            SyncPolicy::ForceOverwrite,
        )
        .unwrap();
    assert_eq!(sync_mgr.get_status(), SyncStatus::Success);
    assert_eq!(sync_mgr.is_syncing(), false);
}

#[test]
fn test_sync_count_increment() {
    let mut sync_mgr = SyncManager::new();
    let mut memory = create_test_memory();
    let mut fuse_mgr = create_test_fuse_manager();
    assert_eq!(sync_mgr.get_sync_count(), 0);
    for i in 0..3 {
        if let Some(shadow_reg) = fuse_mgr.get_shadow_bank_mut().get_register_mut(i) {
            shadow_reg.write(0x1000 * (i as u64 + 1)).unwrap();
            shadow_reg.commit().unwrap();
        }
        sync_mgr
            .sync_register(
                &mut fuse_mgr,
                &mut memory,
                i,
                SyncDirection::ShadowToFuse,
                SyncPolicy::ForceOverwrite,
            )
            .unwrap();
    }
    assert_eq!(sync_mgr.get_sync_count(), 3);
}

#[test]
fn second_sync_is_refused_while_flag_is_held() {
    let mut sync_mgr = SyncManager::new();
    let mut memory = create_test_memory();
    let mut fuse_mgr = create_test_fuse_manager();
    assert_eq!(sync_mgr.try_acquire(), Ok(()));
    assert!(sync_mgr.is_syncing());
    assert_eq!(sync_mgr.try_acquire(), Err(ShadowError::SyncInProgress));
    let result = sync_mgr.sync_register(
        &mut fuse_mgr,
        &mut memory,
        1,
        SyncDirection::ShadowToFuse,
        SyncPolicy::ForceOverwrite,
    );
    assert_eq!(result, Err(ShadowError::SyncInProgress));
    assert_eq!(sync_mgr.get_status(), SyncStatus::InProgress);
    assert!(fuse_mgr.get_fuse(1).unwrap().is_virgin());
    sync_mgr.release(false);
    assert!(sync_mgr
        .sync_register(
            &mut fuse_mgr,
            &mut memory,
            1,
            SyncDirection::ShadowToFuse,
            SyncPolicy::ForceOverwrite,
        )
        .is_ok());
}

#[test]
fn bidirectional_force_overwrite_end_to_end() {
    let mut memory = create_test_memory();
    let mut fuse_mgr = create_test_fuse_manager();
    let mut sync_mgr = SyncManager::new();
    memory.write_word(0x20, 0xAAAAAAAA);
    fuse_mgr.load_to_shadow(&mut memory, 1).unwrap();
    assert_eq!(fuse_mgr.get_fuse(1).unwrap().get_value(), 0xAAAAAAAA);
    let reg = fuse_mgr.get_shadow_bank_mut().get_register_mut(1).unwrap();
    reg.write(0xBBBBBBBB).unwrap();
    reg.commit().unwrap();
    sync_mgr
        .sync_register(
            &mut fuse_mgr,
            &mut memory,
            1,
            SyncDirection::Bidirectional,
            SyncPolicy::ForceOverwrite,
        )
        .unwrap();
    assert_eq!(fuse_mgr.get_fuse(1).unwrap().get_value(), 0xBBBBBBBB);
    assert_eq!(memory.read_word(0x20), 0xBBBBBBBB);
}

#[test]
fn conflict_resolve_loads_unwritten_shadow_from_fuse() {
    let mut memory = create_test_memory();
    let mut fuse_mgr = create_test_fuse_manager();
    let mut sync_mgr = SyncManager::new();
    memory.write_word(0x20, 0x42);
    sync_mgr
        .sync_register(
            &mut fuse_mgr,
            &mut memory,
            1,
            SyncDirection::Bidirectional,
            SyncPolicy::ConflictResolve,
        )
        .unwrap();
    assert_eq!(fuse_mgr.get_shadow_bank().get_register(1).unwrap().read(), 0x42);
}

#[test]
fn sync_reports_missing_fuse_and_noop_directions() {
    let mut memory = create_test_memory();
    let mut fuse_mgr = create_test_fuse_manager();
    let mut sync_mgr = SyncManager::new();
    assert_eq!(
        sync_mgr.sync_register(
            &mut fuse_mgr,
            &mut memory,
            7,
            SyncDirection::Bidirectional,
            SyncPolicy::ForceOverwrite,
        ),
        Err(ShadowError::FuseNotFound)
    );
    assert_eq!(sync_mgr.get_status(), SyncStatus::Failed);
    assert!(sync_mgr
        .sync_register(
            &mut fuse_mgr,
            &mut memory,
            7,
            SyncDirection::ShadowToActive,
            SyncPolicy::ForceOverwrite,
        )
        .is_ok());
    assert!(sync_mgr
        .sync_register(
            &mut fuse_mgr,
            &mut memory,
            7,
            SyncDirection::ActiveToShadow,
            SyncPolicy::ForceOverwrite,
        )
        .is_ok());
    assert_eq!(sync_mgr.get_sync_count(), 2);
}

#[test]
fn sync_all_tallies_conflicts() {
    let mut memory = create_test_memory();
    let mut fuse_mgr = create_test_fuse_manager();
    let mut sync_mgr = SyncManager::new();
    memory.write_word(0x20, 5);
    let result = sync_mgr.sync_all(
        &mut fuse_mgr,
        &mut memory,
        SyncDirection::Bidirectional,
        SyncPolicy::VersionChecked,
    );
    assert_eq!(result.synced_count, 2);
    assert_eq!(result.conflict_count, 1);
    assert_eq!(result.failed_count, 0);
    assert_eq!(result.status, SyncStatus::Conflict);
}
