//! The controller: exclusive owner of the mapped register region and of a
//! fixed-capacity set of port slots addressed by bank index. It is the single
//! source of truth for which banks exist and what shape they have.
//!
//! Adapters registered with the host framework are counted here, as the
//! liveness guarantee that keeps the region mapped: detach refuses to tear
//! the controller down, and hands it back, while any adapter is outstanding.

use vstd::prelude::*;

use crate::errors::IndexError;
use crate::port::Port;
use crate::regs::RegisterBlock;
use crate::adapter::ChipAdapter;
use crate::MAX_PORTS;
use crate::REGION_WORDS;

verus! {

/// Owner of the register region and of at most `MAX_PORTS` port slots,
/// created once at attach and destroyed at detach.
pub struct Controller {
    regs: RegisterBlock,
    ports: Vec<Option<Port>>,
    adapters: usize,
}

impl Controller {
    /// The port slots, one per addressable bank index.
    pub closed spec fn ports_view(&self) -> Seq<Option<Port>> {
        self.ports@
    }

    /// The owned register region's state.
    pub closed spec fn regs_view(&self) -> Seq<u32> {
        self.regs@
    }

    /// How many chip adapters are currently registered against this
    /// controller.
    pub closed spec fn adapters_outstanding(&self) -> int {
        self.adapters as int
    }

    /// Structural invariant: a full-length region, exactly `MAX_PORTS`
    /// slots, and every filled slot holds a valid port.
    pub open spec fn wf(&self) -> bool {
        &&& self.regs_view().len() == REGION_WORDS
        &&& self.ports_view().len() == MAX_PORTS
        &&& forall|i: int|
            0 <= i < MAX_PORTS ==> (#[trigger] self.ports_view()[i] matches Some(p) ==> p.wf())
    }

    /// The shape topology resolution guarantees: each filled slot holds the
    /// port whose bank index is that slot, so no two ports claim the same
    /// register-bank offset.
    pub open spec fn resolved_wf(&self) -> bool {
        &&& self.wf()
        &&& forall|i: int|
            0 <= i < MAX_PORTS ==> (#[trigger] self.ports_view()[i] matches Some(p) ==> p.index
                == i)
    }

    /// A controller that owns `regs` and has every port slot still empty.
    pub fn new(regs: RegisterBlock) -> (c: Controller)
        requires
            regs.wf(),
        ensures
            c.wf(),
            c.resolved_wf(),
            c.regs_view() == regs@,
            c.adapters_outstanding() == 0,
            forall|i: int| 0 <= i < MAX_PORTS ==> c.ports_view()[i] is None,
    {
        let mut ports: Vec<Option<Port>> = Vec::new();
        let mut i: usize = 0;
        while i < MAX_PORTS
            invariant
                i <= MAX_PORTS,
                ports@.len() == i,
                forall|j: int| 0 <= j < i ==> ports@[j] is None,
            decreases MAX_PORTS - i,
        {
            ports.push(None);
            i = i + 1;
        }
        Controller { regs, ports, adapters: 0 }
    }

    /// Stores `port` in slot `index`, overwriting whatever the slot held;
    /// resolution guarantees slot uniqueness upstream, so the range test is a
    /// defensive check, not a merge policy.
    pub fn set_port(&mut self, index: usize, port: Port) -> (r: Result<(), IndexError>)
        requires
            old(self).wf(),
            port.wf(),
        ensures
            final(self).wf(),
            r is Ok <==> index < MAX_PORTS,
            index < MAX_PORTS ==> final(self).ports_view() == old(self).ports_view().update(
                index as int,
                Some(port),
            ),
            !(index < MAX_PORTS) ==> r == Err::<(), IndexError>(IndexError::OutOfRange)
                && final(self).ports_view() == old(self).ports_view(),
            final(self).regs_view() == old(self).regs_view(),
            final(self).adapters_outstanding() == old(self).adapters_outstanding(),
    {
        if index >= MAX_PORTS {
            return Err(IndexError::OutOfRange);
        }
        self.ports[index] = Some(port);
        Ok(())
    }

    /// Looks the port of bank `index` up; `None` for an out-of-range index or
    /// an empty slot.
    pub fn port(&self, index: usize) -> (r: Option<&Port>)
        requires
            self.wf(),
        ensures
            index < MAX_PORTS && self.ports_view()[index as int] is Some ==> (r matches Some(q)
                && *q == self.ports_view()[index as int]->0),
            !(index < MAX_PORTS) || self.ports_view()[index as int] is None ==> r is None,
    {
        if index >= MAX_PORTS {
            return None;
        }
        self.ports[index].as_ref()
    }

    /// Read access to the owned register region.
    pub fn regs(&self) -> (r: &RegisterBlock)
        ensures
            r@ == self.regs_view(),
    {
        &self.regs
    }

    /// Exclusive access to the owned register region, for the line
    /// operations; ports and the adapter count stay as they are.
    pub fn regs_mut(&mut self) -> (r: &mut RegisterBlock)
        ensures
            (*r)@ == old(self).regs_view(),
            final(self).regs_view() == (*final(r))@,
            final(self).ports_view() == old(self).ports_view(),
            final(self).adapters_outstanding() == old(self).adapters_outstanding(),
    {
        &mut self.regs
    }

    /// How many adapters are currently registered and counted against this
    /// controller.
    pub fn adapter_count(&self) -> (n: usize)
        ensures
            n == self.adapters_outstanding(),
    {
        self.adapters
    }

    /// Registers one chip adapter for the port in slot `index` and counts it
    /// as outstanding; fails locally when the slot is out of range or empty.
    pub fn register_adapter(&mut self, index: usize) -> (r: Result<ChipAdapter, IndexError>)
        requires
            old(self).wf(),
            old(self).adapters_outstanding() < usize::MAX,
        ensures
            final(self).wf(),
            final(self).ports_view() == old(self).ports_view(),
            final(self).regs_view() == old(self).regs_view(),
            r matches Ok(a) ==> (index < MAX_PORTS && old(self).ports_view()[index as int]
                is Some && a.port() == old(self).ports_view()[index as int]->0
                && final(self).adapters_outstanding() == old(self).adapters_outstanding() + 1),
            r is Err ==> r == Err::<ChipAdapter, IndexError>(IndexError::OutOfRange) && (!(index
                < MAX_PORTS) || old(self).ports_view()[index as int] is None)
                && final(self).adapters_outstanding() == old(self).adapters_outstanding(),
            r is Ok <==> index < MAX_PORTS && old(self).ports_view()[index as int] is Some,
    {
        if index >= MAX_PORTS {
            return Err(IndexError::OutOfRange);
        }
        match self.ports[index] {
            Some(p) => {
                self.adapters = self.adapters + 1;
                Ok(ChipAdapter::new(p))
            },
            None => Err(IndexError::OutOfRange),
        }
    }

    /// Hands a registered adapter back and stops counting it as outstanding.
    pub fn unregister_adapter(&mut self, adapter: ChipAdapter) -> (r: ())
        requires
            old(self).wf(),
        ensures
            final(self).wf(),
            final(self).ports_view() == old(self).ports_view(),
            final(self).regs_view() == old(self).regs_view(),
            final(self).adapters_outstanding() == if old(self).adapters_outstanding() > 0 {
                old(self).adapters_outstanding() - 1
            } else {
                0int
            },
    {
        let _ = adapter;
        if self.adapters > 0 {
            self.adapters = self.adapters - 1;
        }
    }

    /// Single atomic teardown: gives the register region back for unmapping,
    /// or fails loudly — returning the still-live controller — while any
    /// adapter is outstanding.
    pub fn detach(self) -> (r: Result<RegisterBlock, Controller>)
        requires
            self.wf(),
        ensures
            self.adapters_outstanding() == 0 ==> (r matches Ok(regs) && regs@
                == self.regs_view()),
            self.adapters_outstanding() != 0 ==> (r matches Err(c) && c == self),
    {
        if self.adapters == 0 {
            Ok(self.regs)
        } else {
            Err(self)
        }
    }
}

} // verus!
