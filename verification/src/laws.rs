//! Laws of the register-access discipline, stated over the functional
//! models of the port operations and proved for every reachable register
//! state: configuring a line as input is idempotent, a configured output
//! line reads back the level driven on it, and two writes to different
//! lines of the same bank preserve each other's bit whatever their order.

use vstd::prelude::*;

use crate::bits::coupled_ext;
use crate::bits::lemma_bit_set_zero;
use crate::bits::lemma_coupled_absorbs;
use crate::bits::lemma_with_bit;
use crate::bits::lemma_with_bit_commutes;
use crate::bits::lemma_with_bit_idempotent;
use crate::bits::with_bit;
use crate::port::Port;
use crate::REGION_WORDS;

verus! {

/// Reset-state convention: in a region whose registers all read zero, every
/// line of every bank is an input, drives nothing and shows a low level —
/// an unconfigured line reads as `In` until `direction_output` is called.
pub proof fn lemma_reset_state(p: Port, s: Seq<u32>, line: u32)
    requires
        p.wf(),
        s.len() == REGION_WORDS,
        forall|a: int| 0 <= a < REGION_WORDS ==> s[a] == 0u32,
        line < p.ngpios,
    ensures
        !p.line_is_output(s, line),
        !p.line_driven(s, line),
        !p.line_level(s, line),
{
    lemma_bit_set_zero(line);
}

/// Idempotence of `direction_input`: two consecutive calls for the same
/// line leave the whole register region — the cleared direction bit
/// included — exactly as one call leaves it.
pub proof fn lemma_direction_input_idempotent(p: Port, s: Seq<u32>, line: u32)
    requires
        p.wf(),
        s.len() == REGION_WORDS,
        line < p.ngpios,
    ensures
        p.direction_input_model(p.direction_input_model(s, line), line)
            == p.direction_input_model(s, line),
        !p.line_is_output(p.direction_input_model(s, line), line),
{
    let dir = p.dir_word(s);
    p.lemma_dir_write_effects(s, dir, line, false);
    let s1 = p.direction_input_model(s, line);
    let dir1 = p.dir_word(s1);
    p.lemma_dir_write_effects(s1, dir1, line, false);
    let s2 = p.direction_input_model(s1, line);
    lemma_with_bit_idempotent(dir, line, false);
    assert(with_bit(dir1, line, false) == dir1);
    lemma_coupled_absorbs(p.data_word(s), p.data_word(s), dir1, p.ext_word(s));
    assert(p.ext_word(s2) == p.ext_word(s1));
    assert forall|a: int| 0 <= a < REGION_WORDS implies s2[a] == s1[a] by {
        if a != p.data_addr() && a != p.dir_addr() && a != p.ext_addr() {
            assert(!(p.bank_base() <= a < p.bank_base() + 3));
        }
    }
    assert(s2 =~= s1);
}

/// Round trip on an output line: after `direction_output(line)` and
/// `set_value(line, true)`, the externally observed level of `line` — what
/// `get_value` returns — is `true`, absent external interference.
pub proof fn lemma_output_round_trip(p: Port, s: Seq<u32>, line: u32, level: bool)
    requires
        p.wf(),
        s.len() == REGION_WORDS,
        line < p.ngpios,
    ensures
        p.line_level(
            p.set_value_model(p.direction_output_model(s, line), line, level),
            line,
        ) == level,
        p.line_is_output(
            p.set_value_model(p.direction_output_model(s, line), line, level),
            line,
        ),
{
    p.lemma_dir_write_effects(s, p.dir_word(s), line, true);
    let s1 = p.direction_output_model(s, line);
    p.lemma_data_write_effects(s1, p.data_word(s1), line, level);
}

/// No lost update: forcing two different lines of the same bank, in either
/// order, leaves each line's driven bit at its own level — neither write
/// can lose the other's bit — and the two orders produce the very same
/// register state.
pub proof fn lemma_set_value_independent(
    p: Port,
    s: Seq<u32>,
    line_a: u32,
    level_a: bool,
    line_b: u32,
    level_b: bool,
)
    requires
        p.wf(),
        s.len() == REGION_WORDS,
        line_a < p.ngpios,
        line_b < p.ngpios,
        line_a != line_b,
    ensures
        p.line_driven(
            p.set_value_model(p.set_value_model(s, line_a, level_a), line_b, level_b),
            line_a,
        ) == level_a,
        p.line_driven(
            p.set_value_model(p.set_value_model(s, line_a, level_a), line_b, level_b),
            line_b,
        ) == level_b,
        p.set_value_model(p.set_value_model(s, line_a, level_a), line_b, level_b)
            == p.set_value_model(p.set_value_model(s, line_b, level_b), line_a, level_a),
{
    let data = p.data_word(s);
    let dir = p.dir_word(s);
    let ext = p.ext_word(s);
    p.lemma_data_write_effects(s, data, line_a, level_a);
    let sa = p.set_value_model(s, line_a, level_a);
    p.lemma_data_write_effects(sa, p.data_word(sa), line_b, level_b);
    let sab = p.set_value_model(sa, line_b, level_b);
    p.lemma_data_write_effects(s, data, line_b, level_b);
    let sb = p.set_value_model(s, line_b, level_b);
    p.lemma_data_write_effects(sb, p.data_word(sb), line_a, level_a);
    let sba = p.set_value_model(sb, line_a, level_a);

    lemma_with_bit(with_bit(data, line_a, level_a), line_b, level_b, line_a);
    lemma_with_bit(data, line_a, level_a, line_a);

    lemma_with_bit_commutes(data, line_a, level_a, line_b, level_b);
    assert(p.data_word(sab) == p.data_word(sba));
    lemma_coupled_absorbs(p.data_word(sab), with_bit(data, line_a, level_a), dir, ext);
    lemma_coupled_absorbs(p.data_word(sba), with_bit(data, line_b, level_b), dir, ext);
    assert(p.ext_word(sab) == coupled_ext(p.data_word(sab), dir, ext));
    assert(p.ext_word(sba) == coupled_ext(p.data_word(sab), dir, ext));
    assert forall|a: int| 0 <= a < REGION_WORDS implies sab[a] == sba[a] by {
        if a != p.data_addr() && a != p.dir_addr() && a != p.ext_addr() {
            assert(!(p.bank_base() <= a < p.bank_base() + 3));
        }
    }
    assert(sab =~= sba);
}

} // verus!
