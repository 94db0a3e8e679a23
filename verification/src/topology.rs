//! Firmware topology resolver: turns the device node's tree of untyped
//! property bags into a validated port layout, once per attach,
//! single-threaded, strictly before any adapter is registered.
//!
//! Per child, in order: the mandatory bank index (`reg`, absent or malformed
//! fails as a missing property), the line count (`ngpios`, falling back to
//! the legacy `snps,nr-gpios` when absent or zero, both dead failing as a
//! zero line count), the clamp to `MAX_GPIOS`, and the numbering base
//! (`gpio-base` for a software-synthesized node, `chipnum-base` for a
//! hardware-described one — the two conventions must not be conflated).
//! Any failure aborts the whole attach: no partial set of ports is ever
//! left registered.

use vstd::prelude::*;

use crate::controller::Controller;
use crate::errors::ConfigError;
use crate::port::Port;
use crate::regs::RegisterBlock;
use crate::MAX_GPIOS;
use crate::MAX_PORTS;

verus! {

/// One child description node, already read into plain property values;
/// `None` stands for an absent property. A transient parsing artifact,
/// consumed entirely during resolution.
#[derive(Clone, Copy, Debug)]
pub struct ChildNode {
    /// Whether the node was synthesized in software rather than supplied by
    /// the hardware's own description; selects the numbering-base property.
    pub software_synthesized: bool,
    /// Mandatory bank index.
    pub reg: Option<u32>,
    /// Primary line-count property.
    pub ngpios: Option<u32>,
    /// Legacy line-count property, used only when `ngpios` is absent or zero.
    pub snps_nr_gpios: Option<u32>,
    /// Numbering base of a software-synthesized node.
    pub gpio_base: Option<u32>,
    /// Numbering base of a hardware-described node.
    pub chipnum_base: Option<u32>,
}

/// The device node under which the banks are described, one child per bank.
pub struct DeviceNode {
    pub children: Vec<ChildNode>,
}

/// An absent property read as the value zero.
pub open spec fn opt_or_zero(o: Option<u32>) -> u32 {
    match o {
        Some(v) => v,
        None => 0u32,
    }
}

/// The line count before clamping: `ngpios`, or the legacy property when
/// `ngpios` is absent or zero.
pub open spec fn effective_count(c: ChildNode) -> u32 {
    if opt_or_zero(c.ngpios) != 0 {
        opt_or_zero(c.ngpios)
    } else {
        opt_or_zero(c.snps_nr_gpios)
    }
}

/// The resolved line count: the effective count, silently truncated to
/// `MAX_GPIOS` when it exceeds it.
pub open spec fn clamped_count(c: ChildNode) -> u32 {
    if effective_count(c) > MAX_GPIOS {
        MAX_GPIOS
    } else {
        effective_count(c)
    }
}

/// The numbering-base property selected by the node's provenance.
pub open spec fn base_property(c: ChildNode) -> Option<u32> {
    if c.software_synthesized {
        c.gpio_base
    } else {
        c.chipnum_base
    }
}

/// The bank index a child claims (zero when `reg` is absent; only meaningful
/// once `reg` is known to be present).
pub open spec fn reg_of(c: ChildNode) -> u32 {
    opt_or_zero(c.reg)
}

/// A child that resolves on its own: bank index present and addressable,
/// at least one line, and the selected numbering base present.
pub open spec fn child_ok(c: ChildNode) -> bool {
    &&& c.reg is Some
    &&& (reg_of(c) as int) < MAX_PORTS
    &&& effective_count(c) != 0
    &&& base_property(c) is Some
}

/// The port a valid child resolves to.
pub open spec fn resolved_port(c: ChildNode) -> Port {
    Port { index: reg_of(c) as usize, ngpios: clamped_count(c), gpio_base: opt_or_zero(base_property(c)) }
}

/// Whether some already resolved port claims bank index `idx`.
pub open spec fn index_taken(ports: Seq<Port>, idx: int) -> bool {
    exists|k: int| 0 <= k < ports.len() && (#[trigger] ports[k]).index == idx
}

/// Resolution of one child against the ports resolved before it, exactly in
/// the order the properties are read: missing `reg`, then a malformed or
/// already claimed bank index, fail as a missing property; a dead line count
/// fails as a zero line count; then the count is clamped and the selected
/// numbering base must be present.
pub open spec fn resolve_child(c: ChildNode, prior: Seq<Port>) -> Result<Port, ConfigError> {
    if c.reg is None {
        Err(ConfigError::MissingProperty)
    } else if (reg_of(c) as int) >= MAX_PORTS || index_taken(prior, reg_of(c) as int) {
        Err(ConfigError::MissingProperty)
    } else if effective_count(c) == 0 {
        Err(ConfigError::ZeroLineCount)
    } else if base_property(c) is None {
        Err(ConfigError::MissingProperty)
    } else {
        Ok(resolved_port(c))
    }
}

/// Resolution of the children in order; the first failing child's error is
/// the error of the whole pass.
pub open spec fn resolve_children(cs: Seq<ChildNode>) -> Result<Seq<Port>, ConfigError>
    decreases cs.len(),
{
    if cs.len() == 0 {
        Ok(Seq::empty())
    } else {
        match resolve_children(cs.drop_last()) {
            Err(e) => Err(e),
            Ok(prior) => match resolve_child(cs.last(), prior) {
                Err(e) => Err(e),
                Ok(p) => Ok(prior.push(p)),
            },
        }
    }
}

/// The whole resolution pass: the child count is checked against
/// `MAX_PORTS` before any child is read.
pub open spec fn resolve_spec(cs: Seq<ChildNode>) -> Result<Seq<Port>, ConfigError> {
    if cs.len() > MAX_PORTS {
        Err(ConfigError::TooManyPorts)
    } else {
        resolve_children(cs)
    }
}

/// The controller port slots that a resolved port list fills: each port in
/// the slot of its own bank index, every other slot empty.
pub open spec fn slots_of(ports: Seq<Port>) -> Seq<Option<Port>>
    decreases ports.len(),
{
    if ports.len() == 0 {
        Seq::new(MAX_PORTS as nat, |i: int| None::<Port>)
    } else {
        slots_of(ports.drop_last()).update(
            ports.last().index as int,
            Some(ports.last()),
        )
    }
}

/// Shape of the filled slots: `MAX_PORTS` slots in all, a slot is filled
/// exactly when some resolved port claims its index, and a filled slot holds
/// a port of that very index.
pub proof fn lemma_slots_of_shape(ports: Seq<Port>)
    requires
        forall|k: int| 0 <= k < ports.len() ==> (#[trigger] ports[k]).wf(),
    ensures
        slots_of(ports).len() == MAX_PORTS,
        forall|j: int|
            0 <= j < MAX_PORTS ==> ((#[trigger] slots_of(ports)[j]) is Some <==> index_taken(
                ports,
                j,
            )),
        forall|j: int|
            0 <= j < MAX_PORTS ==> ((#[trigger] slots_of(ports)[j]) matches Some(p) ==> p.index
                == j && exists|k: int| 0 <= k < ports.len() && (#[trigger] ports[k]) == p),
    decreases ports.len(),
{
    if ports.len() > 0 {
        lemma_slots_of_shape(ports.drop_last());
        let last = ports.last();
        assert(ports[ports.len() - 1] == last);
        assert forall|j: int| 0 <= j < MAX_PORTS implies ((#[trigger] slots_of(ports)[j]) is Some
            <==> index_taken(ports, j)) by {
            if j == last.index {
                assert(slots_of(ports)[j] == Some(last));
            } else {
                assert(slots_of(ports)[j] == slots_of(ports.drop_last())[j]);
                assert forall|k: int|
                    0 <= k < ports.len() && (#[trigger] ports[k]).index == j implies index_taken(
                    ports.drop_last(),
                    j,
                ) by {
                    assert(k < ports.len() - 1);
                    assert(ports.drop_last()[k] == ports[k]);
                }
                assert(index_taken(ports.drop_last(), j) ==> index_taken(ports, j)) by {
                    if index_taken(ports.drop_last(), j) {
                        let k = choose|k: int|
                            0 <= k < ports.drop_last().len() && (#[trigger] ports.drop_last()[k]).index
                                == j;
                        assert(ports[k] == ports.drop_last()[k]);
                    }
                }
            }
        }
        assert forall|j: int| 0 <= j < MAX_PORTS implies ((#[trigger] slots_of(ports)[j])
            matches Some(p) ==> p.index == j && exists|k: int|
            0 <= k < ports.len() && (#[trigger] ports[k]) == p) by {
            if slots_of(ports)[j] is Some {
                let p = slots_of(ports)[j]->0;
                if j == last.index as int {
                    assert(ports[ports.len() - 1] == p);
                } else {
                    assert(slots_of(ports)[j] == slots_of(ports.drop_last())[j]);
                    let k = choose|k: int|
                        0 <= k < ports.drop_last().len() && (#[trigger] ports.drop_last()[k]) == p;
                    assert(ports[k] == p);
                }
            }
        }
    }
}

/// A failing child fails the whole pass with its own error, whatever comes
/// after it.
pub proof fn lemma_resolve_prefix_err(cs: Seq<ChildNode>, i: int, prior: Seq<Port>, e: ConfigError)
    requires
        0 <= i < cs.len(),
        resolve_children(cs.take(i)) == Ok::<Seq<Port>, ConfigError>(prior),
        resolve_child(cs[i], prior) == Err::<Port, ConfigError>(e),
    ensures
        resolve_children(cs) == Err::<Seq<Port>, ConfigError>(e),
    decreases cs.len(),
{
    if cs.len() == i + 1 {
        assert(cs.take(i) =~= cs.drop_last());
        assert(cs.last() == cs[i]);
    } else {
        assert(cs.drop_last().take(i) =~= cs.take(i));
        assert(cs.drop_last()[i] == cs[i]);
        lemma_resolve_prefix_err(cs.drop_last(), i, prior, e);
    }
}

/// No two children claim the same bank index.
pub open spec fn regs_distinct(cs: Seq<ChildNode>) -> bool {
    forall|j: int, k: int|
        0 <= j < k < cs.len() ==> reg_of(#[trigger] cs[j]) != reg_of(#[trigger] cs[k])
}

/// When resolution of the children succeeds, and what it yields: it succeeds
/// exactly when every child is valid on its own and no two children claim
/// the same bank index, and then the k-th resolved port is the k-th child's
/// resolved index, clamped line count and provenance-selected numbering
/// base.
pub proof fn lemma_resolve_children_characterization(cs: Seq<ChildNode>)
    ensures
        resolve_children(cs) is Ok <==> ((forall|k: int|
            0 <= k < cs.len() ==> child_ok(#[trigger] cs[k])) && regs_distinct(cs)),
        resolve_children(cs) matches Ok(ps) ==> (ps.len() == cs.len() && forall|k: int|
            0 <= k < cs.len() ==> ps[k] == resolved_port(#[trigger] cs[k])),
    decreases cs.len(),
{
    if cs.len() > 0 {
        let cs0 = cs.drop_last();
        let c = cs.last();
        lemma_resolve_children_characterization(cs0);
        assert(forall|k: int| 0 <= k < cs0.len() ==> #[trigger] cs0[k] == cs[k]);
        assert(c == cs[cs.len() - 1]);
        match resolve_children(cs0) {
            Err(e) => {
                if (forall|k: int| 0 <= k < cs.len() ==> child_ok(#[trigger] cs[k]))
                    && regs_distinct(cs) {
                    assert forall|k: int| 0 <= k < cs0.len() implies child_ok(
                        #[trigger] cs0[k],
                    ) by {
                        assert(cs0[k] == cs[k]);
                    }
                    assert(regs_distinct(cs0)) by {
                        assert forall|j: int, k: int| 0 <= j < k < cs0.len() implies reg_of(
                            #[trigger] cs0[j],
                        ) != reg_of(#[trigger] cs0[k]) by {
                            assert(cs0[j] == cs[j]);
                            assert(cs0[k] == cs[k]);
                        }
                    }
                    assert(false);
                }
            },
            Ok(prior) => {
                assert forall|idx: int| index_taken(prior, idx) implies exists|j: int|
                    0 <= j < cs0.len() && reg_of(#[trigger] cs[j]) as int == idx by {
                    let k = choose|k: int|
                        0 <= k < prior.len() && (#[trigger] prior[k]).index == idx;
                    assert(prior[k] == resolved_port(cs0[k]));
                    assert(cs0[k] == cs[k]);
                }
                assert forall|j: int|
                    0 <= j < cs0.len() && reg_of(#[trigger] cs[j]) as int == reg_of(c) as int
                    implies index_taken(prior, reg_of(c) as int) by {
                    assert(cs0[j] == cs[j]);
                    assert(prior[j] == resolved_port(cs0[j]));
                    assert(prior[j].index == reg_of(cs[j]) as int);
                }
                match resolve_child(c, prior) {
                    Ok(p) => {
                        assert(child_ok(c));
                        assert(!index_taken(prior, reg_of(c) as int));
                        assert forall|k: int| 0 <= k < cs.len() implies child_ok(
                            #[trigger] cs[k],
                        ) by {
                            if k < cs.len() - 1 {
                                assert(cs0[k] == cs[k]);
                            } else {
                                assert(cs[k] == c);
                            }
                        }
                        assert(regs_distinct(cs)) by {
                            assert forall|j: int, k: int| 0 <= j < k < cs.len() implies reg_of(
                                #[trigger] cs[j],
                            ) != reg_of(#[trigger] cs[k]) by {
                                if k == cs.len() - 1 {
                                    assert(cs[k] == c);
                                    if reg_of(cs[j]) == reg_of(c) {
                                        assert(index_taken(prior, reg_of(c) as int));
                                        assert(false);
                                    }
                                } else {
                                    assert(cs0[j] == cs[j]);
                                    assert(cs0[k] == cs[k]);
                                    assert(reg_of(cs0[j]) != reg_of(cs0[k]));
                                }
                            }
                        }
                        let ps = prior.push(p);
                        assert(ps[cs.len() - 1] == resolved_port(c));
                        assert forall|k: int| 0 <= k < cs.len() implies ps[k] == resolved_port(
                            #[trigger] cs[k],
                        ) by {
                            if k < cs.len() - 1 {
                                assert(cs0[k] == cs[k]);
                                assert(ps[k] == prior[k]);
                                assert(prior[k] == resolved_port(cs0[k]));
                            } else {
                                assert(cs[k] == c);
                            }
                        }
                    },
                    Err(e) => {
                        if (forall|k: int| 0 <= k < cs.len() ==> child_ok(#[trigger] cs[k]))
                            && regs_distinct(cs) {
                            assert(cs[cs.len() - 1] == c);
                            assert(child_ok(c));
                            if index_taken(prior, reg_of(c) as int) {
                                let j = choose|j: int|
                                    0 <= j < cs0.len() && reg_of(#[trigger] cs[j]) as int == reg_of(
                                        c,
                                    ) as int;
                                assert(reg_of(cs[j]) != reg_of(cs[cs.len() - 1]));
                                assert(false);
                            }
                            assert(false);
                        }
                    },
                }
            },
        }
    }
}

/// How many port slots are filled.
pub open spec fn count_filled(slots: Seq<Option<Port>>) -> int
    decreases slots.len(),
{
    if slots.len() == 0 {
        0int
    } else {
        count_filled(slots.drop_last()) + if slots.last() is Some {
            1int
        } else {
            0int
        }
    }
}

/// A slot sequence with nothing in it counts zero.
proof fn lemma_count_filled_all_none(slots: Seq<Option<Port>>)
    requires
        forall|j: int| 0 <= j < slots.len() ==> (#[trigger] slots[j]) is None,
    ensures
        count_filled(slots) == 0,
    decreases slots.len(),
{
    if slots.len() > 0 {
        assert(forall|j: int|
            0 <= j < slots.drop_last().len() ==> #[trigger] slots.drop_last()[j] == slots[j]);
        lemma_count_filled_all_none(slots.drop_last());
    }
}

/// Filling one empty slot raises the filled count by exactly one.
proof fn lemma_count_filled_update(slots: Seq<Option<Port>>, i: int, p: Port)
    requires
        0 <= i < slots.len(),
        slots[i] is None,
    ensures
        count_filled(slots.update(i, Some(p))) == count_filled(slots) + 1,
    decreases slots.len(),
{
    let t = slots.update(i, Some(p));
    if i == slots.len() - 1 {
        assert(t.drop_last() =~= slots.drop_last());
    } else {
        assert(t.drop_last() =~= slots.drop_last().update(i, Some(p)));
        lemma_count_filled_update(slots.drop_last(), i, p);
        assert(t.last() == slots.last());
    }
}

/// A resolved port list with pairwise distinct bank indices fills exactly
/// one slot per port: as many slots as ports were resolved.
pub proof fn lemma_slots_of_count(ports: Seq<Port>)
    requires
        forall|k: int| 0 <= k < ports.len() ==> (#[trigger] ports[k]).wf(),
        forall|j: int, k: int|
            0 <= j < k < ports.len() ==> (#[trigger] ports[j]).index != (#[trigger] ports[k]).index,
    ensures
        count_filled(slots_of(ports)) == ports.len(),
    decreases ports.len(),
{
    if ports.len() == 0 {
        lemma_count_filled_all_none(slots_of(ports));
    } else {
        let ports0 = ports.drop_last();
        let last = ports.last();
        assert(forall|k: int| 0 <= k < ports0.len() ==> #[trigger] ports0[k] == ports[k]);
        assert(last == ports[ports.len() - 1]);
        lemma_slots_of_count(ports0);
        lemma_slots_of_shape(ports0);
        assert(!index_taken(ports0, last.index as int));
        assert(slots_of(ports0)[last.index as int] is None);
        lemma_count_filled_update(slots_of(ports0), last.index as int, last);
    }
}

/// When the whole attach pass succeeds, and what it registers: it succeeds
/// exactly for topologies with at most `MAX_PORTS` children, every child
/// valid on its own and no bank index claimed twice; it then yields one
/// port per child — so attach registers exactly as many ports as there are
/// children — each with the child's bank index, clamped line count and
/// provenance-selected numbering base.
pub proof fn lemma_attach_characterization(cs: Seq<ChildNode>)
    ensures
        resolve_spec(cs) is Ok <==> (cs.len() <= MAX_PORTS && (forall|k: int|
            0 <= k < cs.len() ==> child_ok(#[trigger] cs[k])) && regs_distinct(cs)),
        resolve_spec(cs) matches Ok(ps) ==> (ps.len() == cs.len() && count_filled(slots_of(ps))
            == cs.len() && forall|k: int|
            0 <= k < cs.len() ==> ps[k] == resolved_port(#[trigger] cs[k])),
{
    lemma_resolve_children_characterization(cs);
    if resolve_spec(cs) is Ok {
        let ps = resolve_spec(cs)->Ok_0;
        assert forall|k: int| 0 <= k < ps.len() implies (#[trigger] ps[k]).wf() by {
            assert(ps[k] == resolved_port(cs[k]));
            assert(child_ok(cs[k]));
        }
        assert forall|j: int, k: int| 0 <= j < k < ps.len() implies (#[trigger] ps[j]).index != (
        #[trigger] ps[k]).index by {
            assert(ps[j] == resolved_port(cs[j]));
            assert(ps[k] == resolved_port(cs[k]));
            assert(reg_of(cs[j]) != reg_of(cs[k]));
        }
        lemma_slots_of_count(ps);
    }
}

/// A topology with more children than `MAX_PORTS` fails as such before any
/// child is read, so nothing is ever registered for it.
pub proof fn lemma_too_many_ports(cs: Seq<ChildNode>)
    requires
        cs.len() > MAX_PORTS,
    ensures
        resolve_spec(cs) == Err::<Seq<Port>, ConfigError>(ConfigError::TooManyPorts),
{
}

/// A child whose bank index resolves but whose line count is dead — both
/// the primary and the legacy property absent or zero — fails the whole
/// pass as a zero line count, provided every child before it resolves.
pub proof fn lemma_zero_line_count(cs: Seq<ChildNode>, i: int)
    requires
        0 <= i < cs.len() <= MAX_PORTS,
        forall|k: int| 0 <= k < i ==> child_ok(#[trigger] cs[k]),
        regs_distinct(cs.take(i + 1)),
        cs[i].reg is Some,
        (reg_of(cs[i]) as int) < MAX_PORTS,
        effective_count(cs[i]) == 0,
    ensures
        resolve_spec(cs) == Err::<Seq<Port>, ConfigError>(ConfigError::ZeroLineCount),
{
    let pre = cs.take(i);
    assert(forall|k: int| 0 <= k < pre.len() ==> #[trigger] pre[k] == cs[k]);
    lemma_resolve_children_characterization(pre);
    assert(regs_distinct(pre)) by {
        assert(forall|k: int|
            0 <= k < cs.take(i + 1).len() ==> #[trigger] cs.take(i + 1)[k] == cs[k]);
    }
    let prior = resolve_children(pre)->Ok_0;
    assert(!index_taken(prior, reg_of(cs[i]) as int)) by {
        if index_taken(prior, reg_of(cs[i]) as int) {
            let k = choose|k: int|
                0 <= k < prior.len() && (#[trigger] prior[k]).index == reg_of(cs[i]) as int;
            assert(prior[k] == resolved_port(pre[k]));
            assert(pre[k] == cs[k]);
            assert(reg_of(cs.take(i + 1)[k]) == reg_of(cs.take(i + 1)[i]));
            assert(false);
        }
    }
    assert(resolve_child(cs[i], prior) == Err::<Port, ConfigError>(ConfigError::ZeroLineCount));
    lemma_resolve_prefix_err(cs, i, prior, ConfigError::ZeroLineCount);
}

/// Clamping policy: a valid child with an over-large line count resolves to
/// exactly `MAX_GPIOS` lines — truncation, not failure — and any other
/// valid child keeps its effective count.
pub proof fn lemma_line_count_clamped(c: ChildNode)
    ensures
        effective_count(c) > MAX_GPIOS ==> resolved_port(c).ngpios == MAX_GPIOS,
        effective_count(c) <= MAX_GPIOS ==> resolved_port(c).ngpios == effective_count(c),
{
}

/// Maps the mapped register region and resolves the description tree into a
/// controller: all-or-nothing. On success the controller owns the region,
/// holds exactly the resolved ports, each in the slot of its bank index, and
/// has no adapter outstanding yet; on any configuration error no controller
/// — and so no port — is left registered, and the region is dropped as it
/// would be unmapped.
pub fn attach(regs: RegisterBlock, node: &DeviceNode) -> (r: Result<Controller, ConfigError>)
    requires
        regs.wf(),
    ensures
        r is Ok <==> resolve_spec(node.children@) is Ok,
        r matches Ok(c) ==> (resolve_spec(node.children@) matches Ok(ps) && c.wf()
            && c.resolved_wf() && c.regs_view() == regs@ && c.adapters_outstanding() == 0
            && c.ports_view() == slots_of(ps)),
        r matches Err(e) ==> resolve_spec(node.children@) == Err::<Seq<Port>, ConfigError>(e),
{
    let ghost s0 = regs@;
    let ghost cs = node.children@;
    let nports: usize = node.children.len();
    if nports > MAX_PORTS {
        return Err(ConfigError::TooManyPorts);
    }
    let mut ctrl = Controller::new(regs);
    let mut i: usize = 0;
    while i < nports
        invariant
            nports == cs.len(),
            cs == node.children@,
            nports <= MAX_PORTS,
            i <= nports,
            ctrl.wf(),
            ctrl.resolved_wf(),
            ctrl.regs_view() == s0,
            ctrl.adapters_outstanding() == 0,
            resolve_children(cs.take(i as int)) matches Ok(ps) && ctrl.ports_view() == slots_of(ps)
                && ps.len() == i && (forall|k: int| 0 <= k < ps.len() ==> (#[trigger] ps[k]).wf()),
        decreases nports - i,
    {
        let ghost prior = resolve_children(cs.take(i as int))->Ok_0;
        let child: ChildNode = node.children[i];
        proof {
            assert(cs.take(i as int + 1).drop_last() =~= cs.take(i as int));
            assert(cs.take(i as int + 1).last() == child);
            lemma_slots_of_shape(prior);
        }

        let idx_u32: u32 = match child.reg {
            Some(v) => v,
            None => {
                proof {
                    lemma_resolve_prefix_err(cs, i as int, prior, ConfigError::MissingProperty);
                }
                return Err(ConfigError::MissingProperty);
            },
        };
        let idx: usize = idx_u32 as usize;
        if idx >= MAX_PORTS {
            proof {
                lemma_resolve_prefix_err(cs, i as int, prior, ConfigError::MissingProperty);
            }
            return Err(ConfigError::MissingProperty);
        }
        if ctrl.port(idx).is_some() {
            proof {
                lemma_resolve_prefix_err(cs, i as int, prior, ConfigError::MissingProperty);
            }
            return Err(ConfigError::MissingProperty);
        }

        let mut count: u32 = match child.ngpios {
            Some(v) => v,
            None => 0,
        };
        if count == 0 {
            count = match child.snps_nr_gpios {
                Some(v) => v,
                None => 0,
            };
        }
        if count == 0 {
            proof {
                lemma_resolve_prefix_err(cs, i as int, prior, ConfigError::ZeroLineCount);
            }
            return Err(ConfigError::ZeroLineCount);
        }
        if count > MAX_GPIOS {
            count = MAX_GPIOS;
        }

        let base_prop: Option<u32> = if child.software_synthesized {
            child.gpio_base
        } else {
            child.chipnum_base
        };
        let base: u32 = match base_prop {
            Some(v) => v,
            None => {
                proof {
                    lemma_resolve_prefix_err(cs, i as int, prior, ConfigError::MissingProperty);
                }
                return Err(ConfigError::MissingProperty);
            },
        };

        let port = Port::new(idx, count, base);
        let res = ctrl.set_port(idx, port);
        proof {
            assert(res is Ok);
            assert(resolve_child(child, prior) == Ok::<Port, ConfigError>(port));
            let ps2 = prior.push(port);
            assert(resolve_children(cs.take(i as int + 1)) == Ok::<Seq<Port>, ConfigError>(ps2));
            assert(ps2.drop_last() =~= prior);
            assert(slots_of(ps2) == slots_of(prior).update(idx as int, Some(port)));
            assert(ctrl.ports_view() == slots_of(ps2));
        }
        i = i + 1;
    }
    proof {
        assert(cs.take(nports as int) =~= cs);
    }
    Ok(ctrl)
}

} // verus!
