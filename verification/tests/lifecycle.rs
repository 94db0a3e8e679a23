use dw_apb_gpio::controller::Controller;
use dw_apb_gpio::errors::IndexError;
use dw_apb_gpio::port::Direction;
use dw_apb_gpio::port::Port;
use dw_apb_gpio::regs::RegisterBlock;
use dw_apb_gpio::DATA_REG;

#[test]
fn set_port_rejects_out_of_range_index() {
    let mut ctrl = Controller::new(RegisterBlock::new());
    let port = Port::new(0, 8, 0);
    assert_eq!(ctrl.set_port(4, port), Err(IndexError::OutOfRange));
    assert!(ctrl.port(4).is_none());
}

#[test]
fn set_port_overwrites_an_occupied_slot() {
    let mut ctrl = Controller::new(RegisterBlock::new());
    ctrl.set_port(1, Port::new(1, 8, 0)).unwrap();
    ctrl.set_port(1, Port::new(1, 16, 24)).unwrap();
    let port = ctrl.port(1).unwrap();
    assert_eq!(port.ngpios, 16);
    assert_eq!(port.gpio_base, 24);
}

#[test]
fn empty_slots_answer_none() {
    let ctrl = Controller::new(RegisterBlock::new());
    for index in 0..4 {
        assert!(ctrl.port(index).is_none());
    }
}

#[test]
fn adapter_registration_needs_a_resolved_port() {
    let mut ctrl = Controller::new(RegisterBlock::new());
    assert_eq!(ctrl.register_adapter(0).err(), Some(IndexError::OutOfRange));
    assert_eq!(ctrl.register_adapter(4).err(), Some(IndexError::OutOfRange));
    ctrl.set_port(0, Port::new(0, 8, 0)).unwrap();
    let adapter = ctrl.register_adapter(0).unwrap();
    assert_eq!(adapter.wrapped_port().ngpios, 8);
}

#[test]
fn detach_fails_loudly_while_an_adapter_is_outstanding() {
    let mut ctrl = Controller::new(RegisterBlock::new());
    ctrl.set_port(0, Port::new(0, 8, 0)).unwrap();
    let adapter = ctrl.register_adapter(0).unwrap();
    let mut ctrl = match ctrl.detach() {
        Ok(_) => panic!("detach must fail while the adapter is registered"),
        Err(still_live) => still_live,
    };
    ctrl.unregister_adapter(adapter);
    assert!(ctrl.detach().is_ok());
}

#[test]
fn adapter_forwards_line_operations_to_its_port() {
    let mut ctrl = Controller::new(RegisterBlock::new());
    ctrl.set_port(0, Port::new(0, 8, 0)).unwrap();
    let adapter = ctrl.register_adapter(0).unwrap();
    adapter.direction_output(ctrl.regs_mut(), 2).unwrap();
    adapter.set_value(ctrl.regs_mut(), 2, true);
    assert_eq!(adapter.get_value(ctrl.regs(), 2), Ok(true));
    assert_eq!(adapter.get_direction(ctrl.regs(), 2), Ok(Direction::Out));
    adapter.direction_input(ctrl.regs_mut(), 2).unwrap();
    assert_eq!(adapter.get_direction(ctrl.regs(), 2), Ok(Direction::In));
}

#[test]
fn adapter_set_is_fire_and_forget_on_a_bad_offset() {
    let mut ctrl = Controller::new(RegisterBlock::new());
    ctrl.set_port(0, Port::new(0, 8, 0)).unwrap();
    let adapter = ctrl.register_adapter(0).unwrap();
    adapter.set_value(ctrl.regs_mut(), 8, true);
    assert_eq!(ctrl.regs().read32(DATA_REG), 0);
    assert_eq!(adapter.get_direction(ctrl.regs(), 8), Err(IndexError::OutOfRange));
}

#[test]
fn detach_returns_the_region_for_unmapping() {
    let mut ctrl = Controller::new(RegisterBlock::new());
    ctrl.set_port(0, Port::new(0, 8, 0)).unwrap();
    let port = *ctrl.port(0).unwrap();
    port.set_value(ctrl.regs_mut(), 3, true).unwrap();
    let regs = match ctrl.detach() {
        Ok(regs) => regs,
        Err(_) => panic!("no adapter is outstanding"),
    };
    assert_eq!(regs.read32(DATA_REG), 0b1000);
}
