use dw_apb_gpio::controller::Controller;
use dw_apb_gpio::errors::ConfigError;
use dw_apb_gpio::port::Direction;
use dw_apb_gpio::regs::RegisterBlock;
use dw_apb_gpio::topology::attach;
use dw_apb_gpio::topology::ChildNode;
use dw_apb_gpio::topology::DeviceNode;
use dw_apb_gpio::MAX_GPIOS;

fn empty_child() -> ChildNode {
    ChildNode {
        software_synthesized: false,
        reg: None,
        ngpios: None,
        snps_nr_gpios: None,
        gpio_base: None,
        chipnum_base: None,
    }
}

fn hardware_child(reg: u32, ngpios: u32, chipnum_base: u32) -> ChildNode {
    ChildNode {
        software_synthesized: false,
        reg: Some(reg),
        ngpios: Some(ngpios),
        snps_nr_gpios: None,
        gpio_base: None,
        chipnum_base: Some(chipnum_base),
    }
}

fn software_child(reg: u32, ngpios: u32, gpio_base: u32) -> ChildNode {
    ChildNode {
        software_synthesized: true,
        reg: Some(reg),
        ngpios: Some(ngpios),
        snps_nr_gpios: None,
        gpio_base: Some(gpio_base),
        chipnum_base: None,
    }
}

fn attach_ok(children: Vec<ChildNode>) -> Controller {
    attach(RegisterBlock::new(), &DeviceNode { children }).unwrap()
}

#[test]
fn two_children_scenario() {
    let ctrl = attach_ok(vec![software_child(0, 8, 0), hardware_child(1, 16, 8)]);
    let port0 = *ctrl.port(0).unwrap();
    assert_eq!(port0.index, 0);
    assert_eq!(port0.ngpios, 8);
    assert_eq!(port0.gpio_base, 0);
    let port1 = *ctrl.port(1).unwrap();
    assert_eq!(port1.index, 1);
    assert_eq!(port1.ngpios, 16);
    assert_eq!(port1.gpio_base, 8);
    assert!(ctrl.port(2).is_none());
    assert!(ctrl.port(3).is_none());
    assert_eq!(port0.get_direction(ctrl.regs(), 3), Ok(Direction::In));
}

#[test]
fn too_many_ports_registers_nothing() {
    let children = vec![
        hardware_child(0, 8, 0),
        hardware_child(1, 8, 8),
        hardware_child(2, 8, 16),
        hardware_child(3, 8, 24),
        hardware_child(0, 8, 32),
    ];
    let r = attach(RegisterBlock::new(), &DeviceNode { children });
    assert_eq!(r.err(), Some(ConfigError::TooManyPorts));
}

#[test]
fn zero_line_count_when_both_absent() {
    let mut child = empty_child();
    child.reg = Some(0);
    child.chipnum_base = Some(0);
    let r = attach(RegisterBlock::new(), &DeviceNode { children: vec![child] });
    assert_eq!(r.err(), Some(ConfigError::ZeroLineCount));
}

#[test]
fn zero_line_count_when_both_zero() {
    let mut child = empty_child();
    child.reg = Some(0);
    child.ngpios = Some(0);
    child.snps_nr_gpios = Some(0);
    child.chipnum_base = Some(0);
    let r = attach(RegisterBlock::new(), &DeviceNode { children: vec![child] });
    assert_eq!(r.err(), Some(ConfigError::ZeroLineCount));
}

#[test]
fn oversized_line_count_is_clamped() {
    let ctrl = attach_ok(vec![hardware_child(0, MAX_GPIOS + 8, 0)]);
    assert_eq!(ctrl.port(0).unwrap().ngpios, MAX_GPIOS);
}

#[test]
fn legacy_line_count_used_when_primary_zero() {
    let mut child = hardware_child(0, 0, 0);
    child.snps_nr_gpios = Some(5);
    let ctrl = attach_ok(vec![child]);
    assert_eq!(ctrl.port(0).unwrap().ngpios, 5);
}

#[test]
fn legacy_line_count_used_when_primary_absent() {
    let mut child = hardware_child(0, 0, 0);
    child.ngpios = None;
    child.snps_nr_gpios = Some(7);
    let ctrl = attach_ok(vec![child]);
    assert_eq!(ctrl.port(0).unwrap().ngpios, 7);
}

#[test]
fn missing_reg_fails() {
    let mut child = hardware_child(0, 8, 0);
    child.reg = None;
    let r = attach(RegisterBlock::new(), &DeviceNode { children: vec![child] });
    assert_eq!(r.err(), Some(ConfigError::MissingProperty));
}

#[test]
fn out_of_range_reg_fails() {
    let r = attach(
        RegisterBlock::new(),
        &DeviceNode { children: vec![hardware_child(4, 8, 0)] },
    );
    assert_eq!(r.err(), Some(ConfigError::MissingProperty));
}

#[test]
fn duplicate_reg_fails() {
    let r = attach(
        RegisterBlock::new(),
        &DeviceNode { children: vec![hardware_child(1, 8, 0), hardware_child(1, 8, 8)] },
    );
    assert_eq!(r.err(), Some(ConfigError::MissingProperty));
}

#[test]
fn software_node_needs_gpio_base() {
    let mut child = software_child(0, 8, 0);
    child.gpio_base = None;
    child.chipnum_base = Some(3);
    let r = attach(RegisterBlock::new(), &DeviceNode { children: vec![child] });
    assert_eq!(r.err(), Some(ConfigError::MissingProperty));
}

#[test]
fn hardware_node_needs_chipnum_base() {
    let mut child = hardware_child(0, 8, 0);
    child.chipnum_base = None;
    child.gpio_base = Some(3);
    let r = attach(RegisterBlock::new(), &DeviceNode { children: vec![child] });
    assert_eq!(r.err(), Some(ConfigError::MissingProperty));
}

#[test]
fn provenance_selects_base_property() {
    let mut soft = software_child(0, 8, 40);
    soft.chipnum_base = Some(1);
    let mut hard = hardware_child(1, 8, 50);
    hard.gpio_base = Some(2);
    let ctrl = attach_ok(vec![soft, hard]);
    assert_eq!(ctrl.port(0).unwrap().gpio_base, 40);
    assert_eq!(ctrl.port(1).unwrap().gpio_base, 50);
}

#[test]
fn empty_tree_attaches_with_no_ports() {
    let ctrl = attach_ok(vec![]);
    for index in 0..4 {
        assert!(ctrl.port(index).is_none());
    }
}

#[test]
fn first_failing_child_decides_the_error() {
    let mut bad = hardware_child(1, 0, 8);
    bad.ngpios = Some(0);
    let children = vec![hardware_child(0, 8, 0), bad, hardware_child(4, 8, 16)];
    let r = attach(RegisterBlock::new(), &DeviceNode { children });
    assert_eq!(r.err(), Some(ConfigError::ZeroLineCount));
}
