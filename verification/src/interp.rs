//! The interpreter: building a machine, evaluating operands, and running
//! the tape. Each function is proved to compute what [`crate::semantics`]
//! says of it.

use crate::laws::{lemma_run_frame, lemma_run_verdict, lemma_trunc_div};
use crate::semantics::{displacement, initial_state, insns_of, is_width, jump_target, labels_of, low_bits, trunc_div, trunc_rem};
use crate::types::{Action, Cond, Fault, Immediate, Insn, LabeledTapeEntry, Machine, MachineState, Operand, Register, MEM_SIZE, NUM_REGS};
use vstd::hash_map::StringHashMap;
use vstd::prelude::*;

verus! {

/// The displacement from the instruction at `pc` to the one at `target`.
pub fn displacement_to(target: usize, pc: usize) -> (d: i64)
    ensures
        d == displacement(target, pc),
{
    let diff: i128 = target as i128 - pc as i128 - 1;
    if diff > i64::MAX as i128 {
        (diff - 0x1_0000_0000_0000_0000) as i64
    } else if diff < i64::MIN as i128 {
        (diff + 0x1_0000_0000_0000_0000) as i64
    } else {
        diff as i64
    }
}

/// The program counter after a displacement, wrapping around like a machine word.
pub fn displaced(pc: usize, off: i64) -> (r: usize)
    ensures
        r == jump_target(pc, off as int),
{
    let modulus: u128 = usize::MAX as u128 + 1;
    // 2^64 is a multiple of the modulus, and makes the sum positive.
    let lifted: u128 = (pc as i128 + off as i128 + 0x1_0000_0000_0000_0000) as u128;
    proof {
        let x = pc as int + off as int;
        if usize::MAX == 0xffff_ffff {
            assert((x + 0x1_0000_0000_0000_0000) % 0x1_0000_0000 == x % 0x1_0000_0000);
        } else {
            assert(usize::MAX == 0xffff_ffff_ffff_ffff);
            assert((x + 0x1_0000_0000_0000_0000) % 0x1_0000_0000_0000_0000 == x
                % 0x1_0000_0000_0000_0000);
        }
    }
    (lifted % modulus) as usize
}

/// The quotient and the remainder of a 64-bit division, both rounded toward
/// zero, or the fault that the division raises.
fn divide(a: i64, b: i64) -> (r: Result<(i64, i64), Fault>)
    ensures
        b == 0 ==> r == Err::<(i64, i64), Fault>(Fault::DivisionByZero),
        b != 0 && a == i64::MIN && b == -1 ==> r == Err::<(i64, i64), Fault>(Fault::DivisionOverflow),
        b != 0 && !(a == i64::MIN && b == -1) ==> r == Ok::<(i64, i64), Fault>(
            (trunc_div(a as int, b as int) as i64, trunc_rem(a as int, b as int) as i64),
        ),
        r is Ok ==> i64::MIN <= trunc_div(a as int, b as int) <= i64::MAX,
        r is Ok ==> i64::MIN <= trunc_rem(a as int, b as int) <= i64::MAX,
{
    if b == 0 {
        return Err(Fault::DivisionByZero);
    }
    if a == i64::MIN && b == -1 {
        return Err(Fault::DivisionOverflow);
    }
    proof {
        lemma_trunc_div(a as int, b as int);
    }
    match (a.checked_div(b), a.checked_rem(b)) {
        (Some(q), Some(m)) => Ok((q, m)),
        // Not reached: both succeed on the operands that are left.
        _ => Err(Fault::DivisionOverflow),
    }
}

impl Cond {
    /// Tests the relation on two unsigned values.
    pub fn test_unsigned(self, a: u64, b: u64) -> (r: bool)
        ensures
            r == self.holds_unsigned(a, b),
    {
        match self {
            Cond::Always => true,
            Cond::Equal => a == b,
            Cond::NotEqual => a != b,
            Cond::CommonBit => a & b != 0,
            Cond::Greater => a > b,
            Cond::GreaterOrEqual => a >= b,
            Cond::Less => a < b,
            Cond::LessOrEqual => a <= b,
        }
    }

    /// Tests the relation on two signed values.
    pub fn test_signed(self, a: i64, b: i64) -> (r: bool)
        ensures
            r == self.holds_signed(a, b),
    {
        match self {
            Cond::Always => true,
            Cond::Equal => a == b,
            Cond::NotEqual => a != b,
            Cond::CommonBit => a & b != 0,
            Cond::Greater => a > b,
            Cond::GreaterOrEqual => a >= b,
            Cond::Less => a < b,
            Cond::LessOrEqual => a <= b,
        }
    }
}

impl Machine {
    /// A machine for a tape without labels: registers and memory zero, the
    /// program counter at the first instruction, the label table empty.
    pub fn new(tape: Vec<Insn>) -> (m: Machine)
        ensures
            m@ == initial_state(tape@, Map::empty()),
    {
        let m = Machine {
            tape: tape,
            regs: [0; NUM_REGS],
            mem: [0; MEM_SIZE],
            pc: 0,
            labels: StringHashMap::new(),
        };
        assert(m@.regs =~= initial_state(tape@, Map::empty()).regs);
        assert(m@.mem =~= initial_state(tape@, Map::empty()).mem);
        m
    }

    /// A machine for a labelled program: the labels are resolved, the
    /// instructions make up the tape.
    pub fn new_labeled(labeled_tape: Vec<LabeledTapeEntry>) -> (m: Machine)
        ensures
            m@ == initial_state(insns_of(labeled_tape@), labels_of(labeled_tape@)),
    {
        let (map, tape) = delabel_tape(labeled_tape);
        let m = Machine { tape: tape, regs: [0; NUM_REGS], mem: [0; MEM_SIZE], pc: 0, labels: map };
        assert(m@.regs =~= initial_state(m@.tape, m@.labels).regs);
        assert(m@.mem =~= initial_state(m@.tape, m@.labels).mem);
        m
    }

    /// The register file and the memory of every machine have their fixed
    /// sizes.
    pub proof fn lemma_well_formed(&self)
        ensures
            self@.well_formed(),
    {
    }

    /// Whether the machine has halted: the program counter is past the
    /// tape, or stands on `Stop`.
    pub fn is_halted(&self) -> (h: bool)
        ensures
            h == self@.halted(),
    {
        if self.pc >= self.tape.len() {
            return true;
        }
        match self.tape[self.pc] {
            Insn::Stop => true,
            _ => false,
        }
    }

    /// The value of an operand in the current state.
    pub fn val_of_op(&self, op: Operand) -> (r: Result<i64, Fault>)
        ensures
            r == self@.operand(op),
    {
        match op {
            Operand::Imm(imm) => self.val_of_imm(imm),
            Operand::Reg(r) => Ok(self.val_of_reg(r)),
            Operand::Ind(reg, imm) => match self.val_of_imm(imm) {
                Ok(v) => Ok(self.val_of_reg(reg).wrapping_add(v)),
                Err(f) => Err(f),
            },
        }
    }

    /// The value of an immediate in the current state. A label is looked up
    /// in the label table; one that is not there is a fault.
    pub fn val_of_imm(&self, imm: Immediate) -> (r: Result<i64, Fault>)
        ensures
            r == self@.imm(imm),
    {
        match imm {
            Immediate::Val(i) => Ok(i as i64),
            Immediate::Lbl(l) => match self.labels.get(l) {
                Some(s) => Ok(displacement_to(*s, self.pc)),
                None => Err(Fault::UnknownLabel),
            },
        }
    }

    /// The current value of a register; zero until the register is written.
    pub fn val_of_reg(&self, reg: Register) -> (v: i64)
        ensures
            v == self@.reg(reg),
    {
        self.regs[reg.index()]
    }

    /// Writes a register. Nothing else changes.
    pub fn put_reg(&mut self, reg: Register, val: i64)
        ensures
            final(self)@ == old(self)@.with_reg(reg, val),
    {
        self.regs[reg.index()] = val;
    }

    /// The value that the arithmetic or logic instruction `insn` computes
    /// from register `r` and operand `o`. An instruction of another kind is
    /// refused with `InvalidOpcodeForHandler`.
    pub fn val_of_binop(&self, insn: Insn, r: Register, o: Operand) -> (v: Result<i64, Fault>)
        ensures
            v == self@.binop(insn, r, o),
    {
        reveal(MachineState::binop);
        let reg_val = self.val_of_reg(r);
        let op_val = match self.val_of_op(o) {
            Ok(v) => v,
            Err(f) => { return Err(f); },
        };
        let places: u64 = (op_val as u64) & 63;
        assert((op_val as u64) & 63 < 64) by (bit_vector);
        match insn {
            Insn::Add(_, _) => Ok(reg_val.wrapping_add(op_val)),
            Insn::Sub(_, _) => Ok(reg_val.wrapping_sub(op_val)),
            Insn::Mul(_, _) => Ok(reg_val.wrapping_mul(op_val)),
            Insn::Div(_, _) => match divide(reg_val, op_val) {
                Ok((q, _)) => Ok(q),
                Err(f) => Err(f),
            },
            Insn::Or(_, _) => Ok(reg_val | op_val),
            Insn::And(_, _) => Ok(reg_val & op_val),
            Insn::Lsh(_, _) => Ok(reg_val << places),
            Insn::Rsh(_, _) => Ok(((reg_val as u64) >> places) as i64),
            Insn::Mod(_, _) => match divide(reg_val, op_val) {
                Ok((_, m)) => Ok(m),
                Err(f) => Err(f),
            },
            Insn::Xor(_, _) => Ok(reg_val ^ op_val),
            Insn::Mov(_, _) => Ok(op_val),
            Insn::Arsh(_, _) => Ok(reg_val >> places),
            _ => Err(Fault::InvalidOpcodeForHandler),
        }
    }

    /// Executes the arithmetic or logic instruction `insn`: register `r`
    /// receives the value computed from it and operand `o`.
    pub fn exec_binop(&mut self, insn: Insn, r: Register, o: Operand) -> (res: Result<(), Fault>)
        ensures
            match old(self)@.arith(insn, r, o) {
                Ok(s) => res is Ok && final(self)@ == s,
                Err(f) => res == Err::<(), Fault>(f) && final(self)@ == old(self)@,
            },
    {
        match self.val_of_binop(insn, r, o) {
            Ok(to_store) => {
                self.put_reg(r, to_store);
                Ok(())
            },
            Err(f) => Err(f),
        }
    }

    /// Loads register `r` from the cell that `o` addresses. The address is
    /// cut down to its low `size` bits; the whole cell is loaded. The
    /// machine is left as it was if the operand or the address is at fault.
    pub fn exec_ld(&mut self, r: Register, o: Operand, size: i64) -> (res: Result<(), Fault>)
        requires
            is_width(size),
        ensures
            match old(self)@.load(r, o, size) {
                Ok(s) => res is Ok && final(self)@ == s,
                Err(f) => res == Err::<(), Fault>(f) && final(self)@ == old(self)@,
            },
    {
        reveal(MachineState::load);
        let load_addr = match self.val_of_op(o) {
            Ok(v) => cut_to_width(v as u64, size),
            Err(f) => { return Err(f); },
        };
        if load_addr >= MEM_SIZE as u64 {
            return Err(Fault::OutOfBoundsAddress);
        }
        let to_store = self.mem[load_addr as usize];
        self.put_reg(r, to_store);
        Ok(())
    }

    /// Stores the value of `val` in the cell that `loc` addresses. The
    /// address is cut down to its low `size` bits; the whole value is
    /// stored. The machine is left as it was if an operand or the address is
    /// at fault.
    pub fn exec_str(&mut self, loc: Operand, val: Operand, size: i64) -> (res: Result<(), Fault>)
        requires
            is_width(size),
        ensures
            match old(self)@.store(loc, val, size) {
                Ok(s) => res is Ok && final(self)@ == s,
                Err(f) => res == Err::<(), Fault>(f) && final(self)@ == old(self)@,
            },
    {
        reveal(MachineState::store);
        let str_addr = match self.val_of_op(loc) {
            Ok(v) => cut_to_width(v as u64, size),
            Err(f) => { return Err(f); },
        };
        let to_store = match self.val_of_op(val) {
            Ok(v) => v,
            Err(f) => { return Err(f); },
        };
        if str_addr >= MEM_SIZE as u64 {
            return Err(Fault::OutOfBoundsAddress);
        }
        self.mem[str_addr as usize] = to_store;
        Ok(())
    }

    /// A jump on an unsigned comparison: applies the displacement
    /// `imm_offset` to the program counter if `cnd` holds between register
    /// `dst` and operand `src`, read as unsigned values.
    pub fn exec_cnd_unsigned(&mut self, dst: Register, src: Operand, imm_offset: Immediate, cnd: Cond) -> (res: Result<(), Fault>)
        ensures
            match old(self)@.jump_unsigned(dst, src, imm_offset, cnd) {
                Ok(s) => res is Ok && final(self)@ == s,
                Err(f) => res == Err::<(), Fault>(f) && final(self)@ == old(self)@,
            },
    {
        reveal(MachineState::jump_unsigned);
        let dst_val = self.val_of_reg(dst) as u64;
        let src_val = match self.val_of_op(src) {
            Ok(v) => v as u64,
            Err(f) => { return Err(f); },
        };
        let offset = match self.val_of_imm(imm_offset) {
            Ok(v) => v,
            Err(f) => { return Err(f); },
        };
        if cnd.test_unsigned(dst_val, src_val) {
            self.pc = displaced(self.pc, offset);
        }
        Ok(())
    }

    /// A jump on a signed comparison: applies the displacement `imm_offset`
    /// to the program counter if `cnd` holds between register `dst` and
    /// operand `src`.
    pub fn exec_cnd_signed(&mut self, dst: Register, src: Operand, imm_offset: Immediate, cnd: Cond) -> (res: Result<(), Fault>)
        ensures
            match old(self)@.jump_signed(dst, src, imm_offset, cnd) {
                Ok(s) => res is Ok && final(self)@ == s,
                Err(f) => res == Err::<(), Fault>(f) && final(self)@ == old(self)@,
            },
    {
        reveal(MachineState::jump_signed);
        let dst_val = self.val_of_reg(dst);
        let src_val = match self.val_of_op(src) {
            Ok(v) => v,
            Err(f) => { return Err(f); },
        };
        let offset = match self.val_of_imm(imm_offset) {
            Ok(v) => v,
            Err(f) => { return Err(f); },
        };
        if cnd.test_signed(dst_val, src_val) {
            self.pc = displaced(self.pc, offset);
        }
        Ok(())
    }
}

/// The low `size` bits of an address, got by shifting the others out.
fn cut_to_width(addr: u64, size: i64) -> (r: u64)
    requires
        is_width(size),
    ensures
        r == low_bits(addr, size),
{
    let num_cut: i64 = 64 - size;
    assert((addr << 56i64) >> 56i64 == addr % 0x100) by (bit_vector);
    assert((addr << 48i64) >> 48i64 == addr % 0x1_0000) by (bit_vector);
    assert((addr << 32i64) >> 32i64 == addr % 0x1_0000_0000) by (bit_vector);
    assert((addr << 0i64) >> 0i64 == addr) by (bit_vector);
    (addr << num_cut) >> num_cut
}

/// Resolves a labelled program: the table that binds each label to the
/// position of the instruction that follows it, and the tape of the
/// instructions alone.
pub fn delabel_tape(labeled_tape: Vec<LabeledTapeEntry>) -> (r: (StringHashMap<usize>, Vec<Insn>))
    ensures
        r.0@ == labels_of(labeled_tape@),
        r.1@ == insns_of(labeled_tape@),
{
    let mut label_location_map: StringHashMap<usize> = StringHashMap::new();
    let mut insn_count: usize = 0;
    let mut i: usize = 0;
    while i < labeled_tape.len()
        invariant
            i <= labeled_tape.len(),
            insn_count <= i,
            insn_count == insns_of(labeled_tape@.take(i as int)).len(),
            label_location_map@ == labels_of(labeled_tape@.take(i as int)),
        decreases labeled_tape.len() - i,
    {
        assert(labeled_tape@.take(i + 1).drop_last() == labeled_tape@.take(i as int));
        match labeled_tape[i] {
            LabeledTapeEntry::Lbl(s) => {
                label_location_map.insert(s.to_owned(), insn_count);
            },
            LabeledTapeEntry::Insn(_) => {
                insn_count += 1;
            },
        }
        i += 1;
    }
    assert(labeled_tape@.take(i as int) == labeled_tape@);

    let mut final_tape: Vec<Insn> = Vec::new();
    let mut j: usize = 0;
    while j < labeled_tape.len()
        invariant
            j <= labeled_tape.len(),
            final_tape@ == insns_of(labeled_tape@.take(j as int)),
        decreases labeled_tape.len() - j,
    {
        assert(labeled_tape@.take(j + 1).drop_last() == labeled_tape@.take(j as int));
        match labeled_tape[j] {
            LabeledTapeEntry::Lbl(_) => {},
            LabeledTapeEntry::Insn(insn) => {
                final_tape.push(insn);
            },
        }
        j += 1;
    }
    assert(labeled_tape@.take(j as int) == labeled_tape@);

    (label_location_map, final_tape)
}

/// The action that an instruction stands for.
pub fn decode(insn: Insn) -> (a: Action)
    ensures
        a == insn.action(),
        a matches Action::Load(_, _, w) ==> is_width(w),
        a matches Action::Store(_, _, w) ==> is_width(w),
{
    match insn {
        Insn::Add(reg, op) => Action::Arith(reg, op),
        Insn::Sub(reg, op) => Action::Arith(reg, op),
        Insn::Mul(reg, op) => Action::Arith(reg, op),
        Insn::Div(reg, op) => Action::Arith(reg, op),
        Insn::Or(reg, op) => Action::Arith(reg, op),
        Insn::And(reg, op) => Action::Arith(reg, op),
        Insn::Lsh(reg, op) => Action::Arith(reg, op),
        Insn::Rsh(reg, op) => Action::Arith(reg, op),
        Insn::Mod(reg, op) => Action::Arith(reg, op),
        Insn::Xor(reg, op) => Action::Arith(reg, op),
        Insn::Mov(reg, op) => Action::Arith(reg, op),
        Insn::Arsh(reg, op) => Action::Arith(reg, op),
        Insn::Neg(reg) => Action::Negate(reg),
        Insn::Lddw(reg, op) => Action::LoadValue(reg, op),
        Insn::Ldxdw(reg, op) => Action::Load(reg, op, 64),
        Insn::Ldxw(reg, op) => Action::Load(reg, op, 32),
        Insn::Ldxh(reg, op) => Action::Load(reg, op, 16),
        Insn::Ldxb(reg, op) => Action::Load(reg, op, 8),
        Insn::Stdw(loc, val) => Action::Store(loc, val, 64),
        Insn::Stw(loc, val) => Action::Store(loc, val, 32),
        Insn::Sth(loc, val) => Action::Store(loc, val, 16),
        Insn::Stb(loc, val) => Action::Store(loc, val, 8),
        Insn::Ja(off) => Action::JumpSigned(
            Register::R0,
            Operand::Imm(Immediate::Val(0)),
            off,
            Cond::Always,
        ),
        Insn::Jeq(dst, src, off) => Action::JumpUnsigned(dst, src, off, Cond::Equal),
        Insn::Jne(dst, src, off) => Action::JumpUnsigned(dst, src, off, Cond::NotEqual),
        Insn::Jset(dst, src, off) => Action::JumpUnsigned(dst, src, off, Cond::CommonBit),
        Insn::Jgt(dst, src, off) => Action::JumpUnsigned(dst, src, off, Cond::Greater),
        Insn::Jge(dst, src, off) => Action::JumpUnsigned(dst, src, off, Cond::GreaterOrEqual),
        Insn::Jlt(dst, src, off) => Action::JumpUnsigned(dst, src, off, Cond::Less),
        Insn::Jle(dst, src, off) => Action::JumpUnsigned(dst, src, off, Cond::LessOrEqual),
        Insn::Jsgt(dst, src, off) => Action::JumpSigned(dst, src, off, Cond::Greater),
        Insn::Jsge(dst, src, off) => Action::JumpSigned(dst, src, off, Cond::GreaterOrEqual),
        Insn::Jslt(dst, src, off) => Action::JumpSigned(dst, src, off, Cond::Less),
        Insn::Jsle(dst, src, off) => Action::JumpSigned(dst, src, off, Cond::LessOrEqual),
        Insn::Stop => Action::Halt,
    }
}

/// Executes one instruction on the machine, whatever the program counter
/// says: the instruction's own effect, without the move to the next
/// instruction. An instruction at fault leaves the machine as it was.
pub fn execute(mach: &mut Machine, insn: Insn) -> (res: Result<(), Fault>)
    ensures
        match old(mach)@.effect(insn) {
            Ok(s) => res is Ok && final(mach)@ == s,
            Err(f) => res == Err::<(), Fault>(f) && final(mach)@ == old(mach)@,
        },
{
    match decode(insn) {
        Action::Arith(reg, op) => mach.exec_binop(insn, reg, op),
        Action::Negate(reg) => {
            let to_store = mach.val_of_reg(reg).wrapping_mul(-1);
            mach.put_reg(reg, to_store);
            Ok(())
        },
        Action::LoadValue(reg, op) => match mach.val_of_op(op) {
            Ok(to_store) => {
                mach.put_reg(reg, to_store);
                Ok(())
            },
            Err(f) => Err(f),
        },
        Action::Load(reg, op, size) => mach.exec_ld(reg, op, size),
        Action::Store(loc, val, size) => mach.exec_str(loc, val, size),
        Action::JumpUnsigned(dst, src, off, cnd) => mach.exec_cnd_unsigned(dst, src, off, cnd),
        Action::JumpSigned(dst, src, off, cnd) => mach.exec_cnd_signed(dst, src, off, cnd),
        Action::Halt => Ok(()),
    }
}

/// Executes the instruction under the program counter and moves the
/// counter on by one. Returns `Ok(false)`, and does nothing, if the machine
/// has halted. An instruction at fault leaves the machine as it was.
pub fn step(mach: &mut Machine) -> (res: Result<bool, Fault>)
    ensures
        old(mach)@.halted() ==> res == Ok::<bool, Fault>(false) && final(mach)@ == old(mach)@,
        !old(mach)@.halted() ==> match old(mach)@.step() {
            Ok(s) => res == Ok::<bool, Fault>(true) && final(mach)@ == s,
            Err(f) => res == Err::<bool, Fault>(f) && final(mach)@ == old(mach)@,
        },
{
    if mach.is_halted() {
        return Ok(false);
    }
    let insn = mach.tape[mach.pc];
    match execute(mach, insn) {
        Ok(()) => {
            mach.pc = displaced(mach.pc, 1);
            Ok(true)
        },
        Err(f) => Err(f),
    }
}

/// Runs the machine for at most `max_steps` steps: until it halts, meets a
/// fault, or has taken that many steps without halting (`StepLimit`).
pub fn run_tape_for(mach: &mut Machine, max_steps: u64) -> (res: Result<(), Fault>)
    ensures
        (final(mach)@, res) == old(mach)@.run(max_steps as nat),
        res is Ok <==> final(mach)@.halted(),
        res != Err::<(), Fault>(Fault::InvalidOpcodeForHandler),
        final(mach)@.tape == old(mach)@.tape,
        final(mach)@.labels == old(mach)@.labels,
{
    let mut taken: u64 = 0;
    while taken < max_steps
        invariant
            taken <= max_steps,
            mach@.run((max_steps - taken) as nat) == old(mach)@.run(max_steps as nat),
        decreases max_steps - taken,
    {
        match step(mach) {
            Ok(true) => {
                taken += 1;
            },
            Ok(false) => {
                proof {
                    lemma_run_verdict(old(mach)@, max_steps as nat);
                    lemma_run_frame(old(mach)@, max_steps as nat, Register::R0);
                }
                return Ok(());
            },
            Err(f) => {
                proof {
                    lemma_run_verdict(old(mach)@, max_steps as nat);
                    lemma_run_frame(old(mach)@, max_steps as nat, Register::R0);
                }
                return Err(f);
            },
        }
    }
    proof {
        lemma_run_verdict(old(mach)@, max_steps as nat);
        lemma_run_frame(old(mach)@, max_steps as nat, Register::R0);
    }
    if mach.is_halted() {
        Ok(())
    } else {
        Err(Fault::StepLimit)
    }
}

/// Runs the machine until it halts or meets a fault. The run is cut off
/// with `StepLimit` if it has not ended after 2^64 - 1 steps.
pub fn run_tape(mach: &mut Machine) -> (res: Result<(), Fault>)
    ensures
        (final(mach)@, res) == old(mach)@.run(u64::MAX as nat),
        res is Ok <==> final(mach)@.halted(),
        res != Err::<(), Fault>(Fault::InvalidOpcodeForHandler),
        final(mach)@.tape == old(mach)@.tape,
        final(mach)@.labels == old(mach)@.labels,
{
    run_tape_for(mach, u64::MAX)
}

} // verus!
