//! One line bank of the controller: its bank index, line count and global
//! numbering base, and the direction/level operations on its registers.
//!
//! A port never owns the register region; every operation takes the region
//! explicitly, and an exclusive borrow of it, so concurrent read-modify-write
//! sequences on the same bank registers are excluded by construction. Each
//! operation checks its line offset and fails locally with
//! `IndexError::OutOfRange` instead of touching any register.

use vstd::prelude::*;

use crate::bits::bit_set;
use crate::bits::coupled_ext;
use crate::bits::lemma_coupled_bit;
use crate::bits::lemma_with_bit;
use crate::bits::with_bit;
use crate::errors::IndexError;
use crate::regs::device_step;
use crate::regs::RegisterBlock;
use crate::DATA_REG;
use crate::DIR_REG;
use crate::EXT_REG;
use crate::MAX_GPIOS;
use crate::MAX_PORTS;
use crate::PORT_STRIDE;
use crate::REGION_WORDS;

verus! {

/// Direction of one line: bit clear in the direction register means `In`,
/// bit set means `Out`. An unconfigured line reads as `In`.
#[derive(Clone, Copy, Debug, PartialEq, Eq, Structural)]
pub enum Direction {
    In,
    Out,
}

/// One line bank: bank index, resolved line count and the first global line
/// number of the bank. Immutable after topology resolution; the only mutable
/// state a port touches is the live register content.
#[derive(Clone, Copy, Debug, PartialEq, Eq, Structural)]
pub struct Port {
    /// Bank index within the controller; also fixes the register-bank offset.
    pub index: usize,
    /// Number of lines this bank exposes, already clamped to `MAX_GPIOS`.
    pub ngpios: u32,
    /// First global line number assigned to this bank.
    pub gpio_base: u32,
}

impl Port {
    /// A valid bank shape: index addressable and at least one line, no more
    /// than the register width carries.
    pub open spec fn wf(self) -> bool {
        &&& self.index < MAX_PORTS
        &&& 1 <= self.ngpios <= MAX_GPIOS
    }

    /// First word address of this bank's register block.
    pub open spec fn bank_base(self) -> int {
        self.index * PORT_STRIDE
    }

    /// Word address of this bank's driven-data register.
    pub open spec fn data_addr(self) -> int {
        self.bank_base() + DATA_REG
    }

    /// Word address of this bank's direction register.
    pub open spec fn dir_addr(self) -> int {
        self.bank_base() + DIR_REG
    }

    /// Word address of this bank's external-level register.
    pub open spec fn ext_addr(self) -> int {
        self.bank_base() + EXT_REG
    }

    /// This bank's driven-data register word in region state `s`.
    pub open spec fn data_word(self, s: Seq<u32>) -> u32 {
        s[self.data_addr()]
    }

    /// This bank's direction register word in region state `s`.
    pub open spec fn dir_word(self, s: Seq<u32>) -> u32 {
        s[self.dir_addr()]
    }

    /// This bank's external-level register word in region state `s`.
    pub open spec fn ext_word(self, s: Seq<u32>) -> u32 {
        s[self.ext_addr()]
    }

    /// True when `line` of this bank is configured as an output in `s`.
    pub open spec fn line_is_output(self, s: Seq<u32>, line: u32) -> bool {
        bit_set(self.dir_word(s), line)
    }

    /// The level software last asked to drive on `line`, from the driven-data
    /// register.
    pub open spec fn line_driven(self, s: Seq<u32>, line: u32) -> bool {
        bit_set(self.data_word(s), line)
    }

    /// The externally observed level of `line`, from the external-level
    /// register.
    pub open spec fn line_level(self, s: Seq<u32>, line: u32) -> bool {
        bit_set(self.ext_word(s), line)
    }

    /// Region state after `direction_input(line)`: the direction bit of
    /// `line` cleared by one read-modify-write of the direction register.
    pub open spec fn direction_input_model(self, s: Seq<u32>, line: u32) -> Seq<u32> {
        device_step(s, self.dir_addr(), with_bit(self.dir_word(s), line, false))
    }

    /// Region state after `direction_output(line)`: the direction bit of
    /// `line` set by one read-modify-write of the direction register.
    pub open spec fn direction_output_model(self, s: Seq<u32>, line: u32) -> Seq<u32> {
        device_step(s, self.dir_addr(), with_bit(self.dir_word(s), line, true))
    }

    /// Region state after `set_value(line, level)`: the data bit of `line`
    /// forced to `level` by one read-modify-write of the driven-data
    /// register.
    pub open spec fn set_value_model(self, s: Seq<u32>, line: u32, level: bool) -> Seq<u32> {
        device_step(s, self.data_addr(), with_bit(self.data_word(s), line, level))
    }

    /// The words of every other bank in the region are the same in `s1` and
    /// `s2`: a port operation never reaches outside its own bank.
    pub open spec fn other_banks_unchanged(self, s1: Seq<u32>, s2: Seq<u32>) -> bool {
        forall|a: int|
            0 <= a < REGION_WORDS && !(self.bank_base() <= a < self.bank_base() + PORT_STRIDE)
                ==> s2[a] == s1[a]
    }

    /// A new port for bank `index` with `ngpios` lines numbered globally from
    /// `gpio_base` upward.
    pub fn new(index: usize, ngpios: u32, gpio_base: u32) -> (p: Port)
        requires
            index < MAX_PORTS,
            1 <= ngpios <= MAX_GPIOS,
        ensures
            p == (Port { index, ngpios, gpio_base }),
            p.wf(),
    {
        Port { index, ngpios, gpio_base }
    }

    fn data_reg_addr(&self) -> (a: usize)
        requires
            self.wf(),
        ensures
            a == self.data_addr(),
            a < REGION_WORDS,
    {
        self.index * PORT_STRIDE + DATA_REG
    }

    fn dir_reg_addr(&self) -> (a: usize)
        requires
            self.wf(),
        ensures
            a == self.dir_addr(),
            a < REGION_WORDS,
    {
        self.index * PORT_STRIDE + DIR_REG
    }

    fn ext_reg_addr(&self) -> (a: usize)
        requires
            self.wf(),
        ensures
            a == self.ext_addr(),
            a < REGION_WORDS,
    {
        self.index * PORT_STRIDE + EXT_REG
    }

    /// Translates a bank-local line offset into the flat global line number
    /// space: the bank's numbering base plus the offset. Fails locally when
    /// the offset is not a line of this bank or the global number would not
    /// fit the number space.
    pub fn global_line_number(&self, line: u32) -> (r: Result<u32, IndexError>)
        requires
            self.wf(),
        ensures
            r is Ok <==> (line < self.ngpios && self.gpio_base + line <= u32::MAX),
            r matches Ok(g) ==> g == self.gpio_base + line,
            r is Err ==> r == Err::<u32, IndexError>(IndexError::OutOfRange),
    {
        if line >= self.ngpios {
            return Err(IndexError::OutOfRange);
        }
        if line <= u32::MAX - self.gpio_base {
            Ok(self.gpio_base + line)
        } else {
            Err(IndexError::OutOfRange)
        }
    }

    /// Reads the direction of `line`: `Out` when its direction bit is set,
    /// `In` when clear, `OutOfRange` when `line` is not a line of this bank.
    pub fn get_direction(&self, regs: &RegisterBlock, line: u32) -> (r: Result<
        Direction,
        IndexError,
    >)
        requires
            self.wf(),
            regs.wf(),
        ensures
            r is Ok <==> line < self.ngpios,
            line < self.ngpios ==> r == Ok::<Direction, IndexError>(
                if self.line_is_output(regs@, line) {
                    Direction::Out
                } else {
                    Direction::In
                },
            ),
            !(line < self.ngpios) ==> r == Err::<Direction, IndexError>(IndexError::OutOfRange),
    {
        if line >= self.ngpios {
            return Err(IndexError::OutOfRange);
        }
        let dir: u32 = regs.read32(self.dir_reg_addr());
        if (dir >> line) & 1u32 == 1u32 {
            Ok(Direction::Out)
        } else {
            Ok(Direction::In)
        }
    }

    /// Clears the direction bit of `line`, making it an input; every other
    /// bit of the direction register and the whole driven-data register stay
    /// untouched.
    pub fn direction_input(&self, regs: &mut RegisterBlock, line: u32) -> (r: Result<
        (),
        IndexError,
    >)
        requires
            self.wf(),
            old(regs).wf(),
        ensures
            final(regs).wf(),
            r is Ok <==> line < self.ngpios,
            !(line < self.ngpios) ==> r == Err::<(), IndexError>(IndexError::OutOfRange)
                && final(regs)@ == old(regs)@,
            line < self.ngpios ==> final(regs)@ == self.direction_input_model(old(regs)@, line),
            line < self.ngpios ==> !self.line_is_output(final(regs)@, line),
            line < self.ngpios ==> forall|j: u32|
                j < 32 && j != line ==> self.line_is_output(final(regs)@, j)
                    == self.line_is_output(old(regs)@, j),
            line < self.ngpios ==> self.data_word(final(regs)@) == self.data_word(old(regs)@),
            line < self.ngpios ==> self.other_banks_unchanged(old(regs)@, final(regs)@),
    {
        if line >= self.ngpios {
            return Err(IndexError::OutOfRange);
        }
        let addr: usize = self.dir_reg_addr();
        let dir: u32 = regs.read32(addr);
        let cleared: u32 = dir & !(1u32 << line);
        regs.write32(addr, cleared);
        proof {
            self.lemma_dir_write_effects(old(regs)@, dir, line, false);
        }
        Ok(())
    }

    /// Sets the direction bit of `line`, making it an output. This does not
    /// drive a level by itself: a separate `set_value` call is required, as
    /// an explicit two-step contract.
    pub fn direction_output(&self, regs: &mut RegisterBlock, line: u32) -> (r: Result<
        (),
        IndexError,
    >)
        requires
            self.wf(),
            old(regs).wf(),
        ensures
            final(regs).wf(),
            r is Ok <==> line < self.ngpios,
            !(line < self.ngpios) ==> r == Err::<(), IndexError>(IndexError::OutOfRange)
                && final(regs)@ == old(regs)@,
            line < self.ngpios ==> final(regs)@ == self.direction_output_model(old(regs)@, line),
            line < self.ngpios ==> self.line_is_output(final(regs)@, line),
            line < self.ngpios ==> forall|j: u32|
                j < 32 && j != line ==> self.line_is_output(final(regs)@, j)
                    == self.line_is_output(old(regs)@, j),
            line < self.ngpios ==> self.data_word(final(regs)@) == self.data_word(old(regs)@),
            line < self.ngpios ==> self.line_level(final(regs)@, line) == self.line_driven(
                old(regs)@,
                line,
            ),
            line < self.ngpios ==> self.other_banks_unchanged(old(regs)@, final(regs)@),
    {
        if line >= self.ngpios {
            return Err(IndexError::OutOfRange);
        }
        let addr: usize = self.dir_reg_addr();
        let dir: u32 = regs.read32(addr);
        let set: u32 = dir | (1u32 << line);
        regs.write32(addr, set);
        proof {
            self.lemma_dir_write_effects(old(regs)@, dir, line, true);
        }
        Ok(())
    }

    /// Reads the externally observed level of `line` from the external-level
    /// register — always that register, never the driven-data register, so
    /// input lines reflect the real signal state.
    pub fn get_value(&self, regs: &RegisterBlock, line: u32) -> (r: Result<bool, IndexError>)
        requires
            self.wf(),
            regs.wf(),
        ensures
            r is Ok <==> line < self.ngpios,
            line < self.ngpios ==> r == Ok::<bool, IndexError>(self.line_level(regs@, line)),
            !(line < self.ngpios) ==> r == Err::<bool, IndexError>(IndexError::OutOfRange),
    {
        if line >= self.ngpios {
            return Err(IndexError::OutOfRange);
        }
        let ext: u32 = regs.read32(self.ext_reg_addr());
        Ok((ext >> line) & 1u32 == 1u32)
    }

    /// Forces exactly the data bit of `line` to `level` by one
    /// read-modify-write of the driven-data register, leaving all other bits
    /// of that register and the whole direction register untouched. On an
    /// output line the observed level follows the driven bit.
    pub fn set_value(&self, regs: &mut RegisterBlock, line: u32, level: bool) -> (r: Result<
        (),
        IndexError,
    >)
        requires
            self.wf(),
            old(regs).wf(),
        ensures
            final(regs).wf(),
            r is Ok <==> line < self.ngpios,
            !(line < self.ngpios) ==> r == Err::<(), IndexError>(IndexError::OutOfRange)
                && final(regs)@ == old(regs)@,
            line < self.ngpios ==> final(regs)@ == self.set_value_model(old(regs)@, line, level),
            line < self.ngpios ==> self.line_driven(final(regs)@, line) == level,
            line < self.ngpios ==> forall|j: u32|
                j < 32 && j != line ==> self.line_driven(final(regs)@, j) == self.line_driven(
                    old(regs)@,
                    j,
                ),
            line < self.ngpios ==> self.dir_word(final(regs)@) == self.dir_word(old(regs)@),
            line < self.ngpios && self.line_is_output(old(regs)@, line) ==> self.line_level(
                final(regs)@,
                line,
            ) == level,
            line < self.ngpios ==> self.other_banks_unchanged(old(regs)@, final(regs)@),
    {
        if line >= self.ngpios {
            return Err(IndexError::OutOfRange);
        }
        let addr: usize = self.data_reg_addr();
        let data: u32 = regs.read32(addr);
        let updated: u32 = if level {
            data | (1u32 << line)
        } else {
            data & !(1u32 << line)
        };
        regs.write32(addr, updated);
        proof {
            self.lemma_data_write_effects(old(regs)@, data, line, level);
        }
        Ok(())
    }

    /// Word-by-word effect of the read-modify-write that forces one bit of
    /// this bank's direction register.
    pub proof fn lemma_dir_write_effects(self, s: Seq<u32>, dir: u32, line: u32, level: bool)
        requires
            self.wf(),
            s.len() == REGION_WORDS,
            line < self.ngpios,
            dir == self.dir_word(s),
        ensures
            ({
                let t = device_step(s, self.dir_addr(), with_bit(dir, line, level));
                &&& t.len() == REGION_WORDS
                &&& self.dir_word(t) == with_bit(dir, line, level)
                &&& self.data_word(t) == self.data_word(s)
                &&& self.ext_word(t) == coupled_ext(
                    self.data_word(s),
                    with_bit(dir, line, level),
                    self.ext_word(s),
                )
                &&& self.line_is_output(t, line) == level
                &&& forall|j: u32|
                    j < 32 && j != line ==> self.line_is_output(t, j) == self.line_is_output(s, j)
                &&& self.line_level(t, line) == if level {
                    self.line_driven(s, line)
                } else {
                    self.line_level(s, line)
                }
                &&& self.other_banks_unchanged(s, t)
            }),
    {
        self.lemma_bank_addrs();
        let w = with_bit(dir, line, level);
        let t = device_step(s, self.dir_addr(), w);
        lemma_with_bit(dir, line, level, line);
        assert forall|j: u32| j < 32 && j != line implies self.line_is_output(t, j)
            == self.line_is_output(s, j) by {
            lemma_with_bit(dir, line, level, j);
        }
        lemma_coupled_bit(self.data_word(s), w, self.ext_word(s), line);
    }

    /// Word-by-word effect of the read-modify-write that forces one bit of
    /// this bank's driven-data register.
    pub proof fn lemma_data_write_effects(self, s: Seq<u32>, data: u32, line: u32, level: bool)
        requires
            self.wf(),
            s.len() == REGION_WORDS,
            line < self.ngpios,
            data == self.data_word(s),
        ensures
            ({
                let t = device_step(s, self.data_addr(), with_bit(data, line, level));
                &&& t.len() == REGION_WORDS
                &&& self.data_word(t) == with_bit(data, line, level)
                &&& self.dir_word(t) == self.dir_word(s)
                &&& self.ext_word(t) == coupled_ext(
                    with_bit(data, line, level),
                    self.dir_word(s),
                    self.ext_word(s),
                )
                &&& self.line_driven(t, line) == level
                &&& forall|j: u32|
                    j < 32 && j != line ==> self.line_driven(t, j) == self.line_driven(s, j)
                &&& self.line_level(t, line) == if self.line_is_output(s, line) {
                    level
                } else {
                    self.line_level(s, line)
                }
                &&& self.other_banks_unchanged(s, t)
            }),
    {
        self.lemma_bank_addrs();
        let w = with_bit(data, line, level);
        let t = device_step(s, self.data_addr(), w);
        lemma_with_bit(data, line, level, line);
        assert forall|j: u32| j < 32 && j != line implies self.line_driven(t, j)
            == self.line_driven(s, j) by {
            lemma_with_bit(data, line, level, j);
        }
        lemma_coupled_bit(w, self.dir_word(s), self.ext_word(s), line);
    }

    /// The three register addresses of this bank are distinct, in bounds, and
    /// `device_step` at the data or direction address stays inside the bank.
    proof fn lemma_bank_addrs(self)
        requires
            self.wf(),
        ensures
            0 <= self.bank_base(),
            self.ext_addr() < REGION_WORDS,
            self.data_addr() == self.bank_base() + DATA_REG,
            self.dir_addr() == self.bank_base() + DIR_REG,
            self.data_addr() / (PORT_STRIDE as int) * (PORT_STRIDE as int) == self.bank_base(),
            self.data_addr() % (PORT_STRIDE as int) == DATA_REG as int,
            self.dir_addr() / (PORT_STRIDE as int) * (PORT_STRIDE as int) == self.bank_base(),
            self.dir_addr() % (PORT_STRIDE as int) == DIR_REG as int,
    {
        let i = self.index as int;
        assert((i * 3 + 0) / 3 == i && (i * 3 + 0) % 3 == 0 && (i * 3 + 1) / 3 == i && (i * 3 + 1)
            % 3 == 1) by (nonlinear_arith)
            requires
                0 <= i,
        ;
    }
}

} // verus!
