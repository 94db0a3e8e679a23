use dw_apb_gpio::errors::HardwareAccessError;
use dw_apb_gpio::errors::IndexError;
use dw_apb_gpio::port::Direction;
use dw_apb_gpio::port::Port;
use dw_apb_gpio::regs::RegisterBlock;
use dw_apb_gpio::DIR_REG;
use dw_apb_gpio::EXT_REG;
use dw_apb_gpio::PORT_STRIDE;

fn bank0_port() -> Port {
    Port::new(0, 8, 0)
}

#[test]
fn unconfigured_line_reads_in() {
    let regs = RegisterBlock::new();
    let port = bank0_port();
    for line in 0..8 {
        assert_eq!(port.get_direction(&regs, line), Ok(Direction::In));
    }
}

#[test]
fn direction_output_then_set_then_get_true() {
    let mut regs = RegisterBlock::new();
    let port = bank0_port();
    port.direction_output(&mut regs, 2).unwrap();
    port.set_value(&mut regs, 2, true).unwrap();
    assert_eq!(port.get_value(&regs, 2), Ok(true));
    port.set_value(&mut regs, 2, false).unwrap();
    assert_eq!(port.get_value(&regs, 2), Ok(false));
}

#[test]
fn direction_output_does_not_drive_a_level() {
    let mut regs = RegisterBlock::new();
    let port = bank0_port();
    port.direction_output(&mut regs, 1).unwrap();
    assert_eq!(port.get_value(&regs, 1), Ok(false));
}

#[test]
fn direction_input_is_idempotent() {
    let mut regs = RegisterBlock::new();
    let port = bank0_port();
    port.direction_output(&mut regs, 3).unwrap();
    port.direction_input(&mut regs, 3).unwrap();
    let after_one = regs.read32(DIR_REG);
    let ext_after_one = regs.read32(EXT_REG);
    port.direction_input(&mut regs, 3).unwrap();
    assert_eq!(regs.read32(DIR_REG), after_one);
    assert_eq!(regs.read32(EXT_REG), ext_after_one);
    assert_eq!(port.get_direction(&regs, 3), Ok(Direction::In));
}

#[test]
fn writes_to_different_lines_keep_both_bits() {
    let mut regs = RegisterBlock::new();
    let port = bank0_port();
    port.direction_output(&mut regs, 0).unwrap();
    port.direction_output(&mut regs, 5).unwrap();
    for _ in 0..100 {
        port.set_value(&mut regs, 0, true).unwrap();
        port.set_value(&mut regs, 5, true).unwrap();
        assert_eq!(port.get_value(&regs, 0), Ok(true));
        assert_eq!(port.get_value(&regs, 5), Ok(true));
        port.set_value(&mut regs, 0, false).unwrap();
        assert_eq!(port.get_value(&regs, 0), Ok(false));
        assert_eq!(port.get_value(&regs, 5), Ok(true));
        port.set_value(&mut regs, 5, false).unwrap();
    }
}

#[test]
fn line_offset_bound_is_checked_on_every_operation() {
    let mut regs = RegisterBlock::new();
    let port = bank0_port();
    assert_eq!(port.get_direction(&regs, 8), Err(IndexError::OutOfRange));
    assert_eq!(port.direction_input(&mut regs, 8), Err(IndexError::OutOfRange));
    assert_eq!(port.direction_output(&mut regs, 8), Err(IndexError::OutOfRange));
    assert_eq!(port.get_value(&regs, 8), Err(IndexError::OutOfRange));
    assert_eq!(port.set_value(&mut regs, 8, true), Err(IndexError::OutOfRange));
}

#[test]
fn input_line_reflects_external_level() {
    let mut regs = RegisterBlock::new();
    let port = bank0_port();
    regs.write32(EXT_REG, 0b0001_0000);
    assert_eq!(port.get_value(&regs, 4), Ok(true));
    assert_eq!(port.get_value(&regs, 0), Ok(false));
}

#[test]
fn becoming_an_output_drives_the_stored_data_bit() {
    let mut regs = RegisterBlock::new();
    let port = bank0_port();
    port.set_value(&mut regs, 6, true).unwrap();
    assert_eq!(port.get_value(&regs, 6), Ok(false));
    port.direction_output(&mut regs, 6).unwrap();
    assert_eq!(port.get_value(&regs, 6), Ok(true));
}

#[test]
fn global_line_numbers_start_at_the_bank_base() {
    let port = Port::new(1, 16, 8);
    assert_eq!(port.global_line_number(0), Ok(8));
    assert_eq!(port.global_line_number(15), Ok(23));
    assert_eq!(port.global_line_number(16), Err(IndexError::OutOfRange));
    let high = Port::new(0, 8, u32::MAX - 2);
    assert_eq!(high.global_line_number(2), Ok(u32::MAX));
    assert_eq!(high.global_line_number(3), Err(IndexError::OutOfRange));
}

#[test]
fn a_short_mapping_fails_once_at_adoption() {
    let r = RegisterBlock::from_words(vec![0u32; 3]);
    assert_eq!(r.err(), Some(HardwareAccessError::MappingFailed));
    let adopted = RegisterBlock::from_words(vec![0u32; 12]).unwrap();
    assert_eq!(adopted.read32(DIR_REG), 0);
}

#[test]
fn banks_do_not_interfere() {
    let mut regs = RegisterBlock::new();
    let port0 = Port::new(0, 8, 0);
    let port1 = Port::new(1, 8, 8);
    port0.direction_output(&mut regs, 2).unwrap();
    port0.set_value(&mut regs, 2, true).unwrap();
    assert_eq!(port1.get_value(&regs, 2), Ok(false));
    assert_eq!(port1.get_direction(&regs, 2), Ok(Direction::In));
    assert_eq!(regs.read32(PORT_STRIDE + DIR_REG), 0);
    assert_eq!(port0.get_value(&regs, 2), Ok(true));
}
