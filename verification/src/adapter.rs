//! The chip adapter: one per resolved port, exposing the line-control
//! capability surface the host driver framework calls. Each call is
//! translated 1:1 onto the wrapped port's operation, with results and errors
//! forwarded unchanged; only `set` swallows the local index error, matching
//! the host framework's synchronous, non-fallible set contract.

use vstd::prelude::*;

use crate::errors::IndexError;
use crate::port::Direction;
use crate::port::Port;
use crate::regs::RegisterBlock;

verus! {

/// Handle registered with the host framework for one port. It holds the
/// resolved port shape; the controller counts it as outstanding so the
/// register region stays mapped while it lives.
#[derive(Clone, Copy, Debug, PartialEq, Eq, Structural)]
pub struct ChipAdapter {
    port: Port,
}

impl ChipAdapter {
    /// The port this adapter delegates to.
    pub closed spec fn port(&self) -> Port {
        self.port
    }

    /// An adapter over one resolved port.
    pub fn new(port: Port) -> (a: ChipAdapter)
        requires
            port.wf(),
        ensures
            a.port() == port,
    {
        ChipAdapter { port }
    }

    /// The wrapped port's shape, for the host framework's registration call.
    pub fn wrapped_port(&self) -> (p: &Port)
        ensures
            *p == self.port(),
    {
        &self.port
    }

    /// Forwards to `Port::get_direction` unchanged.
    pub fn get_direction(&self, regs: &RegisterBlock, line: u32) -> (r: Result<
        Direction,
        IndexError,
    >)
        requires
            self.port().wf(),
            regs.wf(),
        ensures
            r is Ok <==> line < self.port().ngpios,
            line < self.port().ngpios ==> r == Ok::<Direction, IndexError>(
                if self.port().line_is_output(regs@, line) {
                    Direction::Out
                } else {
                    Direction::In
                },
            ),
            !(line < self.port().ngpios) ==> r == Err::<Direction, IndexError>(
                IndexError::OutOfRange,
            ),
    {
        self.port.get_direction(regs, line)
    }

    /// Forwards to `Port::direction_input` unchanged.
    pub fn direction_input(&self, regs: &mut RegisterBlock, line: u32) -> (r: Result<
        (),
        IndexError,
    >)
        requires
            self.port().wf(),
            old(regs).wf(),
        ensures
            final(regs).wf(),
            r is Ok <==> line < self.port().ngpios,
            !(line < self.port().ngpios) ==> r == Err::<(), IndexError>(IndexError::OutOfRange)
                && final(regs)@ == old(regs)@,
            line < self.port().ngpios ==> final(regs)@ == self.port().direction_input_model(
                old(regs)@,
                line,
            ),
    {
        self.port.direction_input(regs, line)
    }

    /// Forwards to `Port::direction_output` unchanged; like the port
    /// operation it drives no level by itself.
    pub fn direction_output(&self, regs: &mut RegisterBlock, line: u32) -> (r: Result<
        (),
        IndexError,
    >)
        requires
            self.port().wf(),
            old(regs).wf(),
        ensures
            final(regs).wf(),
            r is Ok <==> line < self.port().ngpios,
            !(line < self.port().ngpios) ==> r == Err::<(), IndexError>(IndexError::OutOfRange)
                && final(regs)@ == old(regs)@,
            line < self.port().ngpios ==> final(regs)@ == self.port().direction_output_model(
                old(regs)@,
                line,
            ),
    {
        self.port.direction_output(regs, line)
    }

    /// Forwards to `Port::get_value` unchanged.
    pub fn get_value(&self, regs: &RegisterBlock, line: u32) -> (r: Result<bool, IndexError>)
        requires
            self.port().wf(),
            regs.wf(),
        ensures
            r is Ok <==> line < self.port().ngpios,
            line < self.port().ngpios ==> r == Ok::<bool, IndexError>(
                self.port().line_level(regs@, line),
            ),
            !(line < self.port().ngpios) ==> r == Err::<bool, IndexError>(IndexError::OutOfRange),
    {
        self.port.get_value(regs, line)
    }

    /// Fire-and-forget set, matching the host framework's non-fallible set
    /// contract: an out-of-range line leaves every register untouched.
    pub fn set_value(&self, regs: &mut RegisterBlock, line: u32, level: bool)
        requires
            self.port().wf(),
            old(regs).wf(),
        ensures
            final(regs).wf(),
            line < self.port().ngpios ==> final(regs)@ == self.port().set_value_model(
                old(regs)@,
                line,
                level,
            ),
            !(line < self.port().ngpios) ==> final(regs)@ == old(regs)@,
    {
        let _ = self.port.set_value(regs, line, level);
    }
}

} // verus!
