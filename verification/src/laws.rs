//! Theorems about the machine: what holds of every program and every state.

use crate::semantics::{alu, displacement, effective_address, initial_state, insns_of, jump_target, labels_of, magnitude, shift_amount, trunc_div, trunc_rem, wrap64};
use crate::types::{Cond, Fault, Immediate, Insn, LabeledTapeEntry, MachineState, Operand, Register, MEM_SIZE};
use vstd::arithmetic::power2::pow2;
use vstd::prelude::*;

verus! {

/// Division rounded toward zero: quotient and remainder make up the
/// dividend again, the quotient is no larger in magnitude than the dividend,
/// and the remainder is smaller in magnitude than the divisor and has the
/// sign of the dividend.
pub proof fn lemma_trunc_div(a: int, b: int)
    requires
        b != 0,
    ensures
        a == b * trunc_div(a, b) + trunc_rem(a, b),
        magnitude(trunc_div(a, b)) <= magnitude(a),
        magnitude(trunc_rem(a, b)) < magnitude(b),
        magnitude(trunc_rem(a, b)) <= magnitude(a),
        a >= 0 ==> trunc_rem(a, b) >= 0,
        a <= 0 ==> trunc_rem(a, b) <= 0,
{
    let x = magnitude(a);
    let d = magnitude(b);
    let q = x / d;
    vstd::arithmetic::div_mod::lemma_fundamental_div_mod(x, d);
    vstd::arithmetic::div_mod::lemma_div_pos_is_pos(x, d);
    vstd::arithmetic::div_mod::lemma_mod_bound(x, d);
    assert(d * q >= q) by (nonlinear_arith)
        requires
            d >= 1,
            q >= 0,
    ;
    assert((-d) * (-q) == d * q && (-d) * q == -(d * q) && d * (-q) == -(d * q))
        by (nonlinear_arith);
}

/// Wrapping leaves alone what fits in 64 bits, and it does not matter
/// whether a sum is wrapped once at the end or after each addition.
pub proof fn lemma_wrap64(x: int, y: int)
    ensures
        i64::MIN <= x <= i64::MAX ==> wrap64(x) == x,
        wrap64(wrap64(x) + y) == wrap64(x + y),
{
    let m = 0x1_0000_0000_0000_0000int;
    let r = x % m;
    assert(wrap64(x) == r || wrap64(x) == r - m);
    assert((r + y) % m == (x + y) % m) by {
        vstd::arithmetic::div_mod::lemma_add_mod_noop(x, y, m);
        vstd::arithmetic::div_mod::lemma_add_mod_noop(r, y, m);
        vstd::arithmetic::div_mod::lemma_mod_twice(x, m);
    }
    assert((r - m + y) % m == (r + y) % m) by {
        vstd::arithmetic::div_mod::lemma_mod_sub_multiples_vanish(r + y, m);
    }
}

/// A 64-bit value read as unsigned: a value that is not negative stands for
/// itself, a negative one for itself plus 2^64. So in an unsigned comparison
/// every negative value is larger than every value that is not negative.
pub proof fn lemma_read_as_unsigned(a: i64)
    ensures
        a >= 0 ==> a as u64 == a,
        a < 0 ==> a as u64 == a + 0x1_0000_0000_0000_0000,
        (a as u64) as i64 == a,
{
    assert(a < 0 ==> (a as u64) == (a + 0x1_0000_0000_0000_0000)) by (bit_vector);
    assert((a as u64) as i64 == a) by (bit_vector);
}

/// The registers of a new machine all read as zero.
pub proof fn lemma_new_registers_read_zero(tape: Seq<Insn>, labels: Map<Seq<char>, usize>, r: Register)
    ensures
        initial_state(tape, labels).well_formed(),
        initial_state(tape, labels).reg(r) == 0,
{
}

/// A register that is never written reads as zero: after a run of any
/// length from the initial state, a register that none of the instructions
/// met on the way writes still holds zero.
pub proof fn lemma_unwritten_register_reads_zero(
    tape: Seq<Insn>,
    labels: Map<Seq<char>, usize>,
    n: nat,
    r: Register,
)
    requires
        forall|k: nat|
            k < n && (#[trigger] initial_state(tape, labels).run(k)).1 == Err::<(), Fault>(
                Fault::StepLimit,
            ) ==> initial_state(tape, labels).run(k).0.current().action().target() != Some(r),
    ensures
        initial_state(tape, labels).run(n).0.reg(r) == 0,
{
    lemma_unwritten_register_keeps_value(initial_state(tape, labels), n, r);
}

/// A register keeps its value through a run in which no instruction that
/// is executed writes it. The instruction executed after `k` steps is the
/// one under the program counter of the state that `k` steps leave, if the
/// run has not ended by then.
pub proof fn lemma_unwritten_register_keeps_value(s: MachineState, n: nat, r: Register)
    requires
        s.well_formed(),
        forall|k: nat|
            k < n && (#[trigger] s.run(k)).1 == Err::<(), Fault>(Fault::StepLimit) ==> s.run(
                k,
            ).0.current().action().target() != Some(r),
    ensures
        s.run(n).0.reg(r) == s.reg(r),
    decreases n,
{
    if !s.halted() && n > 0 {
        assert(s.run(0).1 == Err::<(), Fault>(Fault::StepLimit));
        lemma_effect_frame(s, s.current(), r);
        match s.step() {
            Ok(next) => {
                assert forall|k: nat|
                    k < n - 1 && (#[trigger] next.run(k)).1 == Err::<(), Fault>(
                        Fault::StepLimit,
                    ) implies next.run(k).0.current().action().target() != Some(r) by {
                    assert(s.run(k + 1) == next.run(k));
                }
                lemma_unwritten_register_keeps_value(next, (n - 1) as nat, r);
            },
            Err(_) => {},
        }
    }
}

/// What an instruction leaves alone. No instruction changes the tape, the
/// labels, or the sizes of the register file and the memory. Only a jump
/// moves the program counter, only a store changes the memory, and a
/// register changes only under an instruction that writes it.
pub proof fn lemma_effect_frame(s: MachineState, insn: Insn, r: Register)
    requires
        s.well_formed(),
    ensures
        s.effect(insn) matches Ok(t) ==> {
            &&& t.tape == s.tape
            &&& t.labels == s.labels
            &&& t.well_formed()
            &&& (!insn.action().is_jump() ==> t.pc == s.pc)
            &&& (!(insn.action() is Store) ==> t.mem == s.mem)
            &&& (insn.action().target() != Some(r) ==> t.reg(r) == s.reg(r))
        },
{
    reveal(MachineState::load);
    reveal(MachineState::store);
    reveal(MachineState::jump_unsigned);
    reveal(MachineState::jump_signed);
}

/// A run changes neither the tape nor the labels, and it leaves at its
/// value every register that no instruction on the tape writes, and the
/// memory as it was if the tape holds no store.
pub proof fn lemma_run_frame(s: MachineState, n: nat, r: Register)
    requires
        s.well_formed(),
    ensures
        s.run(n).0.tape == s.tape,
        s.run(n).0.labels == s.labels,
        s.run(n).0.well_formed(),
        (forall|i: int| 0 <= i < s.tape.len() ==> (#[trigger] s.tape[i]).action().target() != Some(r))
            ==> s.run(n).0.reg(r) == s.reg(r),
        (forall|i: int| 0 <= i < s.tape.len() ==> !((#[trigger] s.tape[i]).action() is Store))
            ==> s.run(n).0.mem == s.mem,
    decreases n,
{
    if !s.halted() && n > 0 {
        lemma_effect_frame(s, s.current(), r);
        match s.step() {
            Ok(next) => {
                lemma_run_frame(next, (n - 1) as nat, r);
            },
            Err(_) => {},
        }
    }
}

/// How a run ends. `Ok` is returned exactly in a halted state, `StepLimit`
/// only in one that has not halted, and any other fault is the one that the
/// instruction under the program counter raises in the final state. No
/// instruction on the tape is ever refused as being of the wrong kind.
pub proof fn lemma_run_verdict(s: MachineState, n: nat)
    ensures
        s.run(n).1 is Ok <==> s.run(n).0.halted(),
        s.run(n).1 matches Err(f) ==> f == Fault::StepLimit || s.run(n).0.step() == Err::<
            MachineState,
            Fault,
        >(f),
        s.run(n).1 != Err::<(), Fault>(Fault::InvalidOpcodeForHandler),
    decreases n,
{
    if !s.halted() && n > 0 {
        lemma_effect_faults(s, s.current());
        match s.step() {
            Ok(next) => {
                lemma_run_verdict(next, (n - 1) as nat);
            },
            Err(_) => {},
        }
    }
}

/// The faults that an instruction can raise: never `StepLimit`, and never
/// `InvalidOpcodeForHandler`, since every arithmetic action comes from an
/// arithmetic instruction.
pub proof fn lemma_effect_faults(s: MachineState, insn: Insn)
    ensures
        s.effect(insn) != Err::<MachineState, Fault>(Fault::InvalidOpcodeForHandler),
        s.effect(insn) != Err::<MachineState, Fault>(Fault::StepLimit),
{
    reveal(MachineState::binop);
    reveal(MachineState::load);
    reveal(MachineState::store);
    reveal(MachineState::jump_unsigned);
    reveal(MachineState::jump_signed);
}

/// A larger budget changes nothing once a run has ended: if `n` steps are
/// enough for the machine to halt or to meet a fault, a run of any `m >= n`
/// steps ends in the same state in the same way.
pub proof fn lemma_run_stable(s: MachineState, n: nat, m: nat)
    requires
        n <= m,
        s.run(n).1 != Err::<(), Fault>(Fault::StepLimit),
    ensures
        s.run(m) == s.run(n),
    decreases n,
{
    if !s.halted() {
        if n > 0 {
            match s.step() {
                Ok(next) => {
                    lemma_run_stable(next, (n - 1) as nat, (m - 1) as nat);
                },
                Err(_) => {},
            }
        }
    }
}

/// Running `a` steps and then `b` more is running `a + b` steps, as long as
/// the first part did not end the run.
pub proof fn lemma_run_split(s: MachineState, a: nat, b: nat)
    requires
        s.run(a).1 == Err::<(), Fault>(Fault::StepLimit),
    ensures
        s.run(a + b) == s.run(a).0.run(b),
    decreases a,
{
    if a > 0 {
        match s.step() {
            Ok(next) => {
                lemma_run_split(next, (a - 1) as nat, b);
            },
            Err(_) => {},
        }
    }
}

/// Adding an immediate twice is adding its double once.
pub proof fn lemma_add_twice(s: MachineState, r: Register, k: i32, double: i32)
    requires
        s.well_formed(),
        double == 2 * k,
    ensures
        s.effect(Insn::Add(r, Operand::Imm(Immediate::Val(k)))) matches Ok(once)
            && once.effect(Insn::Add(r, Operand::Imm(Immediate::Val(k)))) matches Ok(twice)
            && s.effect(Insn::Add(r, Operand::Imm(Immediate::Val(double)))) == Ok::<
            MachineState,
            Fault,
        >(twice),
{
    reveal(MachineState::binop);
    let add = Insn::Add(r, Operand::Imm(Immediate::Val(k)));
    let a = s.reg(r);
    lemma_wrap64(a + k, k as int);
    let once = s.with_reg(r, wrap64(a + k));
    assert(s.effect(add) == Ok::<MachineState, Fault>(once));
    let twice = once.with_reg(r, wrap64(a + k + k));
    assert(once.reg(r) == wrap64(a + k));
    assert(once.effect(add) == Ok::<MachineState, Fault>(twice));
    assert(twice.regs =~= s.with_reg(r, wrap64(a + double)).regs);
}

/// The two right shifts. Both move the value to the right by the same
/// number of places and agree on the places that are kept. The logical shift
/// never extends the sign: the places vacated at the top hold zeros, so a
/// negative value shifted by one place or more is no longer negative. The
/// arithmetic shift does: the vacated places hold copies of the sign bit, so
/// a negative value stays negative.
pub proof fn lemma_right_shifts(a: i64, b: i64)
    ensures
        alu(Insn::Rsh(Register::R0, Operand::Reg(Register::R0)), a, b) matches Ok(logical)
            && alu(Insn::Arsh(Register::R0, Operand::Reg(Register::R0)), a, b) matches Ok(arithmetic)
            && {
            let k = shift_amount(b);
            &&& k < 64
            &&& k >= 1 ==> (logical as u64) >> ((64 - k) as u64) == 0
            &&& k >= 1 && a < 0 ==> logical >= 0
            &&& a < 0 ==> arithmetic < 0
            &&& a < 0 ==> (arithmetic as u64) >> ((63 - k) as u64) == u64::MAX >> ((63 - k) as u64)
            &&& a >= 0 ==> arithmetic == logical && logical >= 0
            &&& (logical as u64) & (u64::MAX >> k) == (arithmetic as u64) & (u64::MAX >> k)
            &&& k == 0 ==> arithmetic == a && logical == a
        },
{
    let k = shift_amount(b);
    assert(((b as u64) & 63) < 64) by (bit_vector);
    assert(1 <= k < 64 ==> ((((a as u64) >> k) as i64) as u64) >> ((64 - k) as u64) == 0)
        by (bit_vector);
    assert(a < 0 && 1 <= k < 64 ==> ((a as u64) >> k) as i64 >= 0) by (bit_vector);
    assert(a < 0 && k < 64 ==> (a >> k) < 0) by (bit_vector);
    assert(a < 0 && k < 64 ==> ((a >> k) as u64) >> ((63 - k) as u64) == u64::MAX >> ((63 - k) as u64))
        by (bit_vector);
    assert(a >= 0 && k < 64 ==> (a >> k) == ((a as u64) >> k) as i64 && (a >> k) >= 0)
        by (bit_vector);
    assert(k < 64 ==> ((((a as u64) >> k) as i64) as u64) & (u64::MAX >> k) == ((a >> k) as u64) & (
    u64::MAX >> k)) by (bit_vector);
    assert(k == 0 ==> (a >> k) == a && ((a as u64) >> k) as i64 == a) by (bit_vector);
}

/// A left shift is a multiplication by a power of two, wrapped around at
/// 64 bits.
pub proof fn lemma_left_shift(a: i64, k: u64)
    requires
        k < 64,
    ensures
        a << k == wrap64(a * pow2(k as nat)),
    decreases k,
{
    if k == 0 {
        assert(a << 0u64 == a) by (bit_vector);
        vstd::arithmetic::power2::lemma2_to64();
        assert(pow2(0) == 1);
        assert(a * pow2(k as nat) == a);
    } else {
        let h = a << ((k - 1) as u64);
        let p = pow2((k - 1) as nat) as int;
        let x = a * p;
        lemma_left_shift(a, (k - 1) as u64);
        assert(a << k == ((a << ((k - 1) as u64)) * 2) as i64) by (bit_vector)
            requires
                0 < k < 64,
        ;
        assert((h * 2) as i64 == if h * 2 > 0x7fff_ffff_ffff_ffff {
            h * 2 - 0x1_0000_0000_0000_0000
        } else if h * 2 < -0x8000_0000_0000_0000 {
            h * 2 + 0x1_0000_0000_0000_0000
        } else {
            h * 2
        }) by (bit_vector);
        assert(a << k == wrap64(h * 2));
        // Wrapping before the doubling or after it comes to the same.
        assert(h == wrap64(x));
        lemma_wrap64(x, h as int);
        lemma_wrap64(x, x);
        assert(wrap64(h * 2) == wrap64(x + x));
        vstd::arithmetic::power2::lemma_pow2_unfold(k as nat);
        assert(a * pow2(k as nat) == x + x) by (nonlinear_arith)
            requires
                pow2(k as nat) == 2 * p,
                x == a * p,
        ;
    }
}

/// An arithmetic right shift is a division by a power of two, rounded down.
pub proof fn lemma_arithmetic_right_shift(a: i64, k: u64)
    requires
        k < 64,
    ensures
        a >> k == (a as int) / (pow2(k as nat) as int),
{
    let d = pow2(k as nat) as int;
    vstd::arithmetic::power2::lemma_pow2_pos(k as nat);
    if a >= 0 {
        assert(a >= 0 && k < 64 ==> a >> k == (a as u64) >> k) by (bit_vector);
        vstd::bits::lemma_u64_shr_is_div(a as u64, k);
    } else {
        // The shift of a negative value is the complement of the shift of
        // its complement, which is not negative.
        let y = (-a - 1) as u64;
        assert(a < 0 && k < 64 ==> a >> k == -((((-a - 1) as u64) >> k) as int) - 1)
            by (bit_vector);
        vstd::bits::lemma_u64_shr_is_div(y, k);
        let q = y as int / d;
        let r = y as int % d;
        vstd::arithmetic::div_mod::lemma_fundamental_div_mod(y as int, d);
        vstd::arithmetic::div_mod::lemma_mod_bound(y as int, d);
        assert(a == (-q - 1) * d + (d - 1 - r)) by (nonlinear_arith)
            requires
                y == d * q + r,
                a == -y - 1,
        ;
        vstd::arithmetic::div_mod::lemma_fundamental_div_mod_converse(
            a as int,
            d,
            -q - 1,
            d - 1 - r,
        );
    }
}

/// The three shifts as arithmetic. The number of places is the right
/// operand, read as unsigned, modulo 64. `Lsh` multiplies by that power of
/// two and wraps around; `Arsh` divides by it and rounds down; `Rsh` divides
/// the left operand read as unsigned.
pub proof fn lemma_shifts_as_arithmetic(a: i64, b: i64)
    ensures
        shift_amount(b) == (b as u64) % 64,
        alu(Insn::Lsh(Register::R0, Operand::Reg(Register::R0)), a, b) == Ok::<i64, Fault>(
            wrap64(a * pow2(shift_amount(b) as nat)),
        ),
        alu(Insn::Arsh(Register::R0, Operand::Reg(Register::R0)), a, b) == Ok::<i64, Fault>(
            ((a as int) / (pow2(shift_amount(b) as nat) as int)) as i64,
        ),
        alu(Insn::Rsh(Register::R0, Operand::Reg(Register::R0)), a, b) matches Ok(logical)
            && logical as u64 == ((a as u64) as int) / (pow2(shift_amount(b) as nat) as int),
{
    let k = shift_amount(b);
    assert(((b as u64) & 63) == (b as u64) % 64) by (bit_vector);
    lemma_left_shift(a, k);
    lemma_arithmetic_right_shift(a, k);
    let x = a as u64;
    vstd::bits::lemma_u64_shr_is_div(x, k);
    assert((((x >> k) as i64) as u64) == x >> k) by (bit_vector);
}

/// What was stored is what is loaded: after a store, a load of the same
/// width through the same address operand brings back the stored value.
pub proof fn lemma_store_then_load(s: MachineState, loc: Operand, val: Operand, r: Register, width: i64)
    requires
        s.well_formed(),
    ensures
        s.store(loc, val, width) matches Ok(stored) ==> stored.load(r, loc, width) matches Ok(
            loaded,
        ) && s.operand(val) matches Ok(v) && loaded.reg(r) == v && loaded.mem == stored.mem,
{
    reveal(MachineState::load);
    reveal(MachineState::store);
}

/// The same for the 64-bit instructions themselves: `Stdw` followed by
/// `Ldxdw` at the same address leaves the stored value in the register.
pub proof fn lemma_stdw_then_ldxdw(s: MachineState, loc: Operand, val: Operand, r: Register)
    requires
        s.well_formed(),
    ensures
        s.effect(Insn::Stdw(loc, val)) matches Ok(stored) ==> stored.effect(Insn::Ldxdw(r, loc)) matches Ok(
            loaded,
        ) && s.operand(val) matches Ok(v) && loaded.reg(r) == v,
{
    lemma_store_then_load(s, loc, val, r, 64);
}

/// The cell that an access reaches is the address value modulo two to the
/// width. So an access through an 8-bit address always lands in the memory,
/// whatever the address value was, and one through a 64-bit address lands
/// there only if the value itself is not negative and below the size of the
/// memory.
pub proof fn lemma_address_wraps_or_faults(value: i64)
    ensures
        effective_address(value, 8) == (value as int) % 0x100,
        effective_address(value, 16) == (value as int) % 0x1_0000,
        effective_address(value, 32) == (value as int) % 0x1_0000_0000,
        effective_address(value, 64) == (value as int) % 0x1_0000_0000_0000_0000,
        effective_address(value, 8) < MEM_SIZE,
        effective_address(value, 64) < MEM_SIZE <==> 0 <= value < MEM_SIZE,
{
    lemma_read_as_unsigned(value);
}

/// A label and the literal displacement it stands for are the same
/// immediate, and a jump written with the one does what the same jump
/// written with the other does.
pub proof fn lemma_label_as_literal(s: MachineState, name: &'static str, k: i32, jump: Insn)
    requires
        s.labels.contains_key(name@),
        s.labels[name@] - s.pc - 1 == k,
        jump.action().is_jump(),
    ensures
        s.imm(Immediate::Lbl(name)) == s.imm(Immediate::Val(k)),
        s.effect(jump.with_offset(Immediate::Lbl(name))) == s.effect(
            jump.with_offset(Immediate::Val(k)),
        ),
{
    let label = Immediate::Lbl(name);
    let literal = Immediate::Val(k);
    assert(s.imm(label) == s.imm(literal));
    match jump {
        Insn::Ja(_) => {
            lemma_jumps_agree(
                s,
                label,
                literal,
                Register::R0,
                Operand::Imm(Immediate::Val(0)),
                Cond::Always,
            );
        },
        Insn::Jeq(dst, src, _) => {
            lemma_jumps_agree(s, label, literal, dst, src, Cond::Equal);
        },
        Insn::Jne(dst, src, _) => {
            lemma_jumps_agree(s, label, literal, dst, src, Cond::NotEqual);
        },
        Insn::Jset(dst, src, _) => {
            lemma_jumps_agree(s, label, literal, dst, src, Cond::CommonBit);
        },
        Insn::Jgt(dst, src, _) => {
            lemma_jumps_agree(s, label, literal, dst, src, Cond::Greater);
        },
        Insn::Jge(dst, src, _) => {
            lemma_jumps_agree(s, label, literal, dst, src, Cond::GreaterOrEqual);
        },
        Insn::Jlt(dst, src, _) => {
            lemma_jumps_agree(s, label, literal, dst, src, Cond::Less);
        },
        Insn::Jle(dst, src, _) => {
            lemma_jumps_agree(s, label, literal, dst, src, Cond::LessOrEqual);
        },
        Insn::Jsgt(dst, src, _) => {
            lemma_jumps_agree(s, label, literal, dst, src, Cond::Greater);
        },
        Insn::Jsge(dst, src, _) => {
            lemma_jumps_agree(s, label, literal, dst, src, Cond::GreaterOrEqual);
        },
        Insn::Jslt(dst, src, _) => {
            lemma_jumps_agree(s, label, literal, dst, src, Cond::Less);
        },
        Insn::Jsle(dst, src, _) => {
            lemma_jumps_agree(s, label, literal, dst, src, Cond::LessOrEqual);
        },
        _ => {},
    }
}

/// Two immediates of one value make the same jump.
proof fn lemma_jumps_agree(s: MachineState, a: Immediate, b: Immediate, dst: Register, src: Operand, cnd: Cond)
    requires
        s.imm(a) == s.imm(b),
    ensures
        s.jump_unsigned(dst, src, a, cnd) == s.jump_unsigned(dst, src, b, cnd),
        s.jump_signed(dst, src, a, cnd) == s.jump_signed(dst, src, b, cnd),
{
    reveal(MachineState::jump_unsigned);
    reveal(MachineState::jump_signed);
}

/// A jump to a label lands on the labelled instruction: once the
/// displacement is applied and the counter has moved on by one, the program
/// counter is the position bound to the label.
pub proof fn lemma_jump_lands_on_label(target: usize, pc: usize)
    ensures
        jump_target(jump_target(pc, displacement(target, pc) as int), 1) == target,
        pc <= i64::MAX && target <= i64::MAX ==> displacement(target, pc) == target - pc - 1,
{
    let d = displacement(target, pc) as int;
    let x = target - pc - 1;
    if usize::MAX == 0xffff_ffff {
        let m = 0x1_0000_0000int;
        assert(d == x);
        let j = (pc + d) % m;
        assert(jump_target(pc, d) == j);
        assert((j + 1) % m == target) by {
            if target == 0 {
                assert(j == m - 1);
            } else {
                assert(j == target - 1);
            }
        }
    } else {
        let m = 0x1_0000_0000_0000_0000int;
        assert(usize::MAX == 0xffff_ffff_ffff_ffff);
        assert(d == x || d == x + m || d == x - m);
        let j = (pc + d) % m;
        assert(jump_target(pc, d) == j);
        assert((j + 1) % m == target) by {
            if target == 0 {
                assert(j == m - 1);
            } else {
                assert(j == target - 1);
            }
        }
    }
}

/// A displacement that keeps the program counter within a machine word
/// moves it by exactly that much.
pub proof fn lemma_jump_in_range(pc: usize, off: int)
    requires
        0 <= pc + off <= usize::MAX,
    ensures
        jump_target(pc, off) == pc + off,
{
    vstd::arithmetic::div_mod::lemma_small_mod((pc + off) as nat, (usize::MAX + 1) as nat);
}

/// The tape of a labelled program is no longer than the program.
pub proof fn lemma_insns_of_len(entries: Seq<LabeledTapeEntry>)
    ensures
        insns_of(entries).len() <= entries.len(),
    decreases entries.len(),
{
    if entries.len() > 0 {
        lemma_insns_of_len(entries.drop_last());
    }
}

/// The tape of two programs put together is their two tapes put together.
pub proof fn lemma_insns_of_concat(a: Seq<LabeledTapeEntry>, b: Seq<LabeledTapeEntry>)
    ensures
        insns_of(a + b) == insns_of(a) + insns_of(b),
    decreases b.len(),
{
    if b.len() == 0 {
        assert(a + b == a);
    } else {
        lemma_insns_of_concat(a, b.drop_last());
        assert((a + b).drop_last() == a + b.drop_last());
        assert((a + b).last() == b.last());
    }
}

/// A label is bound to the number of instructions before its declaration,
/// which is the position on the tape of the instruction that follows it. Of
/// several declarations of one name, the last is the one that counts.
pub proof fn lemma_label_position(entries: Seq<LabeledTapeEntry>, i: int, name: &'static str)
    requires
        0 <= i < entries.len() <= usize::MAX,
        entries[i] == LabeledTapeEntry::Lbl(name),
        forall|j: int| i < j < entries.len() ==> (#[trigger] entries[j] matches LabeledTapeEntry::Lbl(
            other,
        ) ==> other@ != name@),
    ensures
        labels_of(entries).contains_key(name@),
        labels_of(entries)[name@] == insns_of(entries.take(i)).len(),
    decreases entries.len(),
{
    let rest = entries.drop_last();
    lemma_insns_of_len(rest);
    if i == entries.len() - 1 {
        assert(rest == entries.take(i));
    } else {
        assert(rest.take(i) == entries.take(i));
        assert(rest[i] == entries[i]);
        assert forall|j: int| i < j < rest.len() implies (#[trigger] rest[j] matches LabeledTapeEntry::Lbl(
            other,
        ) ==> other@ != name@) by {
            assert(rest[j] == entries[j]);
        }
        lemma_label_position(rest, i, name);
        let last = entries[entries.len() - 1];
        assert(last == entries.last());
    }
}

/// The label table holds the declared names and no others.
pub proof fn lemma_label_declared(entries: Seq<LabeledTapeEntry>, name: Seq<char>)
    ensures
        labels_of(entries).contains_key(name) <==> exists|i: int|
            0 <= i < entries.len() && (#[trigger] entries[i] matches LabeledTapeEntry::Lbl(l) && l@
                == name),
    decreases entries.len(),
{
    if entries.len() > 0 {
        let rest = entries.drop_last();
        lemma_label_declared(rest, name);
        let n = entries.len() - 1;
        if labels_of(entries).contains_key(name) {
            if labels_of(rest).contains_key(name) {
                let i = choose|i: int|
                    0 <= i < rest.len() && (#[trigger] rest[i] matches LabeledTapeEntry::Lbl(l) && l@
                        == name);
                assert(entries[i] == rest[i]);
            } else {
                assert(entries[n] == entries.last());
            }
        }
        if exists|i: int|
            0 <= i < entries.len() && (#[trigger] entries[i] matches LabeledTapeEntry::Lbl(l) && l@
                == name) {
            let i = choose|i: int|
                0 <= i < entries.len() && (#[trigger] entries[i] matches LabeledTapeEntry::Lbl(l)
                    && l@ == name);
            if i < n {
                assert(rest[i] == entries[i]);
            } else {
                assert(entries[i] == entries.last());
            }
        }
    }
}

/// A label names the next instruction: the position bound to it is, on the
/// tape, the position of the first instruction that follows its declaration.
pub proof fn lemma_label_names_next_insn(
    entries: Seq<LabeledTapeEntry>,
    i: int,
    j: int,
    name: &'static str,
    insn: Insn,
)
    requires
        0 <= i < j < entries.len() <= usize::MAX,
        entries[i] == LabeledTapeEntry::Lbl(name),
        entries[j] == LabeledTapeEntry::Insn(insn),
        forall|k: int| i < k < j ==> (#[trigger] entries[k]) is Lbl,
        forall|k: int| i < k < entries.len() ==> (#[trigger] entries[k] matches LabeledTapeEntry::Lbl(
            other,
        ) ==> other@ != name@),
    ensures
        labels_of(entries).contains_key(name@),
        labels_of(entries)[name@] < insns_of(entries).len(),
        insns_of(entries)[labels_of(entries)[name@] as int] == insn,
{
    lemma_label_position(entries, i, name);
    lemma_only_labels_between(entries, i, j);
    let before = entries.take(j);
    let after = entries.skip(j + 1);
    let here = seq![entries[j]];
    assert(entries == before + here + after);
    lemma_insns_of_concat(before + here, after);
    lemma_insns_of_concat(before, here);
    assert(here.last() == entries[j]);
    assert(here.drop_last() == Seq::<LabeledTapeEntry>::empty());
    assert(insns_of(here.drop_last()) == Seq::<Insn>::empty());
    assert(insns_of(here) == seq![insn]);
    lemma_insns_of_len(entries);
}

/// Labels take no slot on the tape: a stretch of the program that holds
/// labels only adds nothing to the count of instructions.
pub proof fn lemma_only_labels_between(entries: Seq<LabeledTapeEntry>, i: int, j: int)
    requires
        0 <= i <= j <= entries.len(),
        forall|k: int| i <= k < j ==> (#[trigger] entries[k]) is Lbl,
    ensures
        insns_of(entries.take(j)) == insns_of(entries.take(i)),
    decreases j - i,
{
    if i < j {
        lemma_only_labels_between(entries, i, j - 1);
        assert(entries.take(j).drop_last() == entries.take(j - 1));
        assert(entries.take(j).last() == entries[j - 1]);
    }
}

} // verus!
