//! Register access layer over the mapped register region.
//!
//! The region is a simulated backing store for the peripheral: a flat array
//! of 32-bit words, one `PORT_STRIDE`-word block per bank, holding the
//! driven-data, direction and external-level registers. A write lands in the
//! addressed word; when it changes a bank's data or direction register, the
//! bank's external-level register is re-sampled, so that output lines show
//! the driven bit and input lines keep the level last seen from outside.
//! That re-sampling is the modeled electrical behavior of the device under a
//! no-external-interference assumption; the external-level register itself
//! can still be written directly to stand for an external signal change.

use vstd::prelude::*;

use crate::bits::coupled_ext;
use crate::errors::HardwareAccessError;
use crate::DATA_REG;
use crate::DIR_REG;
use crate::EXT_REG;
use crate::PORT_STRIDE;
use crate::REGION_WORDS;

verus! {

/// The mapped register region of one device: `REGION_WORDS` 32-bit words,
/// `PORT_STRIDE` of them per bank.
pub struct RegisterBlock {
    words: Vec<u32>,
}

impl View for RegisterBlock {
    type V = Seq<u32>;

    closed spec fn view(&self) -> Seq<u32> {
        self.words@
    }
}

/// The register state after a 32-bit write of `v` at word address `addr`:
/// the addressed word takes `v`, and when the word is a bank's data or
/// direction register, that bank's external-level register is re-sampled
/// from the new data and direction words.
pub open spec fn device_step(s: Seq<u32>, addr: int, v: u32) -> Seq<u32> {
    let s1 = s.update(addr, v);
    let bank_base = addr / (PORT_STRIDE as int) * (PORT_STRIDE as int);
    if addr % (PORT_STRIDE as int) == DATA_REG as int || addr % (PORT_STRIDE as int)
        == DIR_REG as int {
        s1.update(
            bank_base + EXT_REG,
            coupled_ext(
                s1[bank_base + DATA_REG],
                s1[bank_base + DIR_REG],
                s1[bank_base + EXT_REG],
            ),
        )
    } else {
        s1
    }
}

impl RegisterBlock {
    /// A validly mapped region: every bank's three registers are in bounds.
    pub open spec fn wf(&self) -> bool {
        self@.len() == REGION_WORDS
    }

    /// A freshly mapped region in reset state: every register reads zero, so
    /// every line starts as an input driving nothing.
    pub fn new() -> (r: RegisterBlock)
        ensures
            r.wf(),
            forall|i: int| 0 <= i < REGION_WORDS ==> r@[i] == 0u32,
    {
        let mut words: Vec<u32> = Vec::new();
        let mut i: usize = 0;
        while i < REGION_WORDS
            invariant
                i <= REGION_WORDS,
                words@.len() == i,
                forall|j: int| 0 <= j < i ==> words@[j] == 0u32,
            decreases REGION_WORDS - i,
        {
            words.push(0u32);
            i = i + 1;
        }
        RegisterBlock { words }
    }

    /// Adopts an already mapped region, validating the mapping once, here,
    /// rather than on every access: a region of the wrong extent is the one
    /// hardware-access failure this layer reports.
    pub fn from_words(words: Vec<u32>) -> (r: Result<RegisterBlock, HardwareAccessError>)
        ensures
            r is Ok <==> words@.len() == REGION_WORDS,
            r matches Ok(b) ==> b@ == words@ && b.wf(),
            !(words@.len() == REGION_WORDS) ==> r == Err::<RegisterBlock, HardwareAccessError>(
                HardwareAccessError::MappingFailed,
            ),
    {
        if words.len() != REGION_WORDS {
            return Err(HardwareAccessError::MappingFailed);
        }
        Ok(RegisterBlock { words })
    }

    /// Single 32-bit read at `addr`; reflects the current register state,
    /// with no caching.
    pub fn read32(&self, addr: usize) -> (r: u32)
        requires
            self.wf(),
            addr < REGION_WORDS,
        ensures
            r == self@[addr as int],
    {
        self.words[addr]
    }

    /// Single 32-bit write at `addr`. The addressed word takes `v` and the
    /// owning bank's external-level register is re-sampled as `device_step`
    /// says.
    pub fn write32(&mut self, addr: usize, v: u32)
        requires
            old(self).wf(),
            addr < REGION_WORDS,
        ensures
            final(self).wf(),
            final(self)@ == device_step(old(self)@, addr as int, v),
    {
        let bank_base: usize = addr / PORT_STRIDE * PORT_STRIDE;
        let reg: usize = addr % PORT_STRIDE;
        proof {
            assert(bank_base + EXT_REG < REGION_WORDS && reg < PORT_STRIDE && addr == bank_base
                + reg) by (nonlinear_arith)
                requires
                    addr < REGION_WORDS,
                    bank_base == addr / PORT_STRIDE * PORT_STRIDE,
                    reg == addr % PORT_STRIDE,
                    PORT_STRIDE == 3,
                    EXT_REG == 2,
                    REGION_WORDS == 12,
            ;
        }
        self.words[addr] = v;
        if reg != EXT_REG {
            let data: u32 = self.words[bank_base + DATA_REG];
            let dir: u32 = self.words[bank_base + DIR_REG];
            let ext: u32 = self.words[bank_base + EXT_REG];
            self.words[bank_base + EXT_REG] = (data & dir) | (ext & !dir);
        }
    }
}

} // verus!
