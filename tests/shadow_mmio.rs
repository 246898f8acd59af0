use shadow_regs::error::ShadowError;
use shadow_regs::shadow_mmio::{
    command_result, control_word, MMIOCommand, ShadowMMIOController, ShadowRegisterMMIO,
    SHADOW_REG_BASE,
};
use shadow_regs::shadow_register::RegisterState;

fn create_mock_shadow_register() -> ShadowRegisterMMIO {
    ShadowRegisterMMIO {
        control: 0,
        data: 0,
        address: 0,
        status: 0,
        ecc: 0,
    }
}

#[test]
fn test_shadow_register_mmio_control_read_write() {
    let mut reg = create_mock_shadow_register();
    reg.write_control(0x12345678);
    let val = reg.read_control();
    assert_eq!(val, 0x12345678);
}

#[test]
fn test_shadow_register_mmio_data_read_write() {
    let mut reg = create_mock_shadow_register();
    reg.write_data(0xDEADBEEFCAFEBABE);
    let val = reg.read_data();
    assert_eq!(val, 0xDEADBEEFCAFEBABE);
}

#[test]
fn test_shadow_register_mmio_status_busy() {
    let mut reg = create_mock_shadow_register();
    reg.status = 0;
    assert!(!reg.is_busy());
    reg.status = 0x1;
    assert!(reg.is_busy());
    reg.status = 0x0;
    assert!(!reg.is_busy());
}

#[test]
fn test_shadow_register_mmio_status_error() {
    let mut reg = create_mock_shadow_register();
    reg.status = 0;
    assert!(!reg.has_error());
    reg.status = 0x2;
    assert!(reg.has_error());
    reg.status = 0x3;
    assert!(reg.is_busy());
    assert!(reg.has_error());
}

#[test]
fn test_shadow_register_mmio_get_state() {
    let mut reg = create_mock_shadow_register();
    reg.status = 0b00001000;
    let state = reg.get_state();
    assert_eq!(state, RegisterState::Loaded);
    reg.status = 0b00010000;
    let state = reg.get_state();
    assert_eq!(state, RegisterState::Modified);
    reg.status = 0b00011000;
    let state = reg.get_state();
    assert_eq!(state, RegisterState::Committed);
}

#[test]
fn test_shadow_register_mmio_get_version() {
    let mut reg = create_mock_shadow_register();
    reg.status = 42 << 8;
    let version = reg.get_version();
    assert_eq!(version, 42);
    reg.status = 255 << 8;
    let version = reg.get_version();
    assert_eq!(version, 255);
}

#[test]
fn test_mmio_command_enum_values() {
    assert_eq!(MMIOCommand::Nop as u8, 0x00);
    assert_eq!(MMIOCommand::Read as u8, 0x01);
    assert_eq!(MMIOCommand::Write as u8, 0x02);
    assert_eq!(MMIOCommand::Commit as u8, 0x03);
    assert_eq!(MMIOCommand::Rollback as u8, 0x04);
    assert_eq!(MMIOCommand::Lock as u8, 0x05);
    assert_eq!(MMIOCommand::Unlock as u8, 0x06);
    assert_eq!(MMIOCommand::Verify as u8, 0x07);
    assert_eq!(MMIOCommand::LoadFuse as u8, 0x08);
    assert_eq!(MMIOCommand::CommitFuse as u8, 0x09);
    assert_eq!(MMIOCommand::Sync as u8, 0x0A);
}

#[test]
fn test_shadow_register_mmio_control_format() {
    let command = MMIOCommand::Commit as u32;
    let register_id = 42u32;
    let ctrl = command | (register_id << 8);
    let extracted_cmd = (ctrl & 0xFF) as u8;
    assert_eq!(extracted_cmd, MMIOCommand::Commit as u8);
    let extracted_id = ((ctrl >> 8) & 0xFF) as u8;
    assert_eq!(extracted_id, 42);
}

#[test]
fn test_shadow_register_mmio_status_layout() {
    let mut reg = create_mock_shadow_register();
    let status: u32 = 1 | (1 << 2) | (3 << 3) | (5 << 8) | (0xABCD << 16);
    reg.status = status;
    assert!(reg.is_busy());
    assert!(!reg.has_error());
    assert_eq!(reg.get_state(), RegisterState::Committed);
    assert_eq!(reg.get_version(), 5);
}

#[test]
fn test_shadow_mmio_controller_initialization() {
    let controller = ShadowMMIOController::new();
    assert_eq!(controller.mmio_base(), SHADOW_REG_BASE);
}

#[test]
fn test_mmio_command_all_values() {
    let commands = [
        MMIOCommand::Nop as u8,
        MMIOCommand::Read as u8,
        MMIOCommand::Write as u8,
        MMIOCommand::Commit as u8,
        MMIOCommand::Rollback as u8,
        MMIOCommand::Lock as u8,
        MMIOCommand::Unlock as u8,
        MMIOCommand::Verify as u8,
        MMIOCommand::LoadFuse as u8,
        MMIOCommand::CommitFuse as u8,
        MMIOCommand::Sync as u8,
    ];
    for (i, &cmd) in commands.iter().enumerate() {
        assert_eq!(cmd, i as u8);
    }
}

#[test]
fn test_shadow_register_mmio_volatile_semantics() {
    let mut reg = create_mock_shadow_register();
    reg.write_data(0x1111);
    reg.write_data(0x2222);
    reg.write_data(0x3333);
    assert_eq!(reg.read_data(), 0x3333);
    reg.write_control(0xAAAA);
    reg.write_control(0xBBBB);
    assert_eq!(reg.read_control(), 0xBBBB);
}

#[test]
fn test_shadow_register_mmio_state_extraction() {
    let mut reg = create_mock_shadow_register();
    let states = [
        (RegisterState::Uninitialized, 0),
        (RegisterState::Loaded, 1),
        (RegisterState::Modified, 2),
        (RegisterState::Committed, 3),
        (RegisterState::Locked, 4),
    ];
    for (expected_state, state_val) in states {
        reg.status = state_val << 3;
        let actual_state = reg.get_state();
        assert_eq!(actual_state, expected_state);
    }
}

#[test]
fn test_shadow_register_mmio_version_range() {
    let mut reg = create_mock_shadow_register();
    for version in [0, 1, 42, 127, 255] {
        reg.status = (version as u32) << 8;
        let read_version = reg.get_version();
        assert_eq!(read_version, version);
    }
}

#[test]
fn control_word_packs_command_and_id() {
    assert_eq!(control_word(MMIOCommand::Read, 5), 0x0501);
    assert_eq!(control_word(MMIOCommand::Sync, 0xFF), 0xFF0A);
    assert_eq!(MMIOCommand::CommitFuse.code(), 9);
}

#[test]
fn command_result_reads_error_bit() {
    assert_eq!(command_result(0), Ok(()));
    assert_eq!(command_result(0x1), Ok(()));
    assert_eq!(command_result(0x2), Err(ShadowError::MmioCommandFailed));
    assert_eq!(command_result(0xFFFF_FFFF), Err(ShadowError::MmioCommandFailed));
}

#[test]
fn unknown_state_code_reads_as_error() {
    let mut reg = create_mock_shadow_register();
    reg.status = 0x1F << 3;
    assert_eq!(reg.get_state(), RegisterState::Error);
}
