//! What the machine does, as mathematics.
//!
//! Everything here is ghost code: functions on integers, sequences and maps
//! that say what each instruction computes, when it faults, and what a run
//! of a given number of steps leaves behind. The executable interpreter is
//! proved to compute exactly these functions.

use crate::types::{Action, Cond, Fault, Immediate, Insn, LabeledTapeEntry, MachineState, Operand, Register, MEM_SIZE, NUM_REGS};
use vstd::prelude::*;

verus! {

/// The signed 64-bit value congruent to `x` modulo 2^64.
pub open spec fn wrap64(x: int) -> i64 {
    let r = x % 0x1_0000_0000_0000_0000;
    if r > i64::MAX {
        (r - 0x1_0000_0000_0000_0000) as i64
    } else {
        r as i64
    }
}

/// The magnitude of `x`.
pub open spec fn magnitude(x: int) -> int {
    if x < 0 {
        -x
    } else {
        x
    }
}

/// The quotient of `a` by `b`, rounded toward zero.
pub open spec fn trunc_div(a: int, b: int) -> int
    recommends
        b != 0,
{
    if (a < 0) == (b < 0) {
        magnitude(a) / magnitude(b)
    } else {
        -(magnitude(a) / magnitude(b))
    }
}

/// The remainder that goes with [`trunc_div`]; it has the sign of `a`.
pub open spec fn trunc_rem(a: int, b: int) -> int
    recommends
        b != 0,
{
    if a < 0 {
        -(magnitude(a) % magnitude(b))
    } else {
        magnitude(a) % magnitude(b)
    }
}

/// The number of places by which a shift instruction moves its left operand:
/// the low six bits of the right operand.
pub open spec fn shift_amount(b: i64) -> u64 {
    (b as u64) & 63
}

/// The value that a two-operand arithmetic or logic instruction computes
/// from `a`, the value of its register, and `b`, the value of its operand.
/// Sums, differences and products wrap around at 64 bits.
pub open spec fn alu(insn: Insn, a: i64, b: i64) -> Result<i64, Fault> {
    match insn {
        Insn::Add(_, _) => Ok(wrap64(a + b)),
        Insn::Sub(_, _) => Ok(wrap64(a - b)),
        Insn::Mul(_, _) => Ok(wrap64(a * b)),
        Insn::Div(_, _) => if b == 0 {
            Err(Fault::DivisionByZero)
        } else if a == i64::MIN && b == -1 {
            Err(Fault::DivisionOverflow)
        } else {
            Ok(trunc_div(a as int, b as int) as i64)
        },
        Insn::Or(_, _) => Ok(a | b),
        Insn::And(_, _) => Ok(a & b),
        Insn::Lsh(_, _) => Ok(a << shift_amount(b)),
        Insn::Rsh(_, _) => Ok(((a as u64) >> shift_amount(b)) as i64),
        Insn::Mod(_, _) => if b == 0 {
            Err(Fault::DivisionByZero)
        } else if a == i64::MIN && b == -1 {
            Err(Fault::DivisionOverflow)
        } else {
            Ok(trunc_rem(a as int, b as int) as i64)
        },
        Insn::Xor(_, _) => Ok(a ^ b),
        Insn::Mov(_, _) => Ok(b),
        Insn::Arsh(_, _) => Ok(a >> shift_amount(b)),
        _ => Err(Fault::InvalidOpcodeForHandler),
    }
}

/// The low `width` bits of `x`, for the four access widths. At 64 bits
/// nothing is cut off.
pub open spec fn low_bits(x: u64, width: i64) -> u64 {
    if width == 8 {
        x % 0x100
    } else if width == 16 {
        x % 0x1_0000
    } else if width == 32 {
        x % 0x1_0000_0000
    } else {
        x
    }
}

/// The four access widths of loads and stores.
pub open spec fn is_width(width: i64) -> bool {
    width == 8 || width == 16 || width == 32 || width == 64
}

/// The cell that an access of the given width reaches from the address
/// value `value`: the value read as unsigned, cut down to its low bits.
pub open spec fn effective_address(value: i64, width: i64) -> u64 {
    low_bits(value as u64, width)
}

/// The displacement that brings a machine at `pc` to `target` once the
/// instruction that applies it has been stepped over.
pub open spec fn displacement(target: usize, pc: usize) -> i64 {
    wrap64(target - pc - 1)
}

/// Where the program counter stands after `off` is applied at `pc`. The
/// counter is a machine word and wraps like one.
pub open spec fn jump_target(pc: usize, off: int) -> usize {
    ((pc + off) % (usize::MAX + 1)) as usize
}

impl Cond {
    /// Whether the relation holds of two unsigned values.
    pub open spec fn holds_unsigned(self, a: u64, b: u64) -> bool {
        match self {
            Cond::Always => true,
            Cond::Equal => a == b,
            Cond::NotEqual => a != b,
            Cond::CommonBit => a & b != 0,
            Cond::Greater => a > b,
            Cond::GreaterOrEqual => a >= b,
            Cond::Less => a < b,
            Cond::LessOrEqual => a <= b,
        }
    }

    /// Whether the relation holds of two signed values.
    pub open spec fn holds_signed(self, a: i64, b: i64) -> bool {
        match self {
            Cond::Always => true,
            Cond::Equal => a == b,
            Cond::NotEqual => a != b,
            Cond::CommonBit => a & b != 0,
            Cond::Greater => a > b,
            Cond::GreaterOrEqual => a >= b,
            Cond::Less => a < b,
            Cond::LessOrEqual => a <= b,
        }
    }
}

impl Insn {
    /// The action that the instruction stands for. The unconditional jump
    /// is a signed jump whose relation always holds.
    pub open spec fn action(self) -> Action {
        match self {
            Insn::Add(r, o) => Action::Arith(r, o),
            Insn::Sub(r, o) => Action::Arith(r, o),
            Insn::Mul(r, o) => Action::Arith(r, o),
            Insn::Div(r, o) => Action::Arith(r, o),
            Insn::Or(r, o) => Action::Arith(r, o),
            Insn::And(r, o) => Action::Arith(r, o),
            Insn::Lsh(r, o) => Action::Arith(r, o),
            Insn::Rsh(r, o) => Action::Arith(r, o),
            Insn::Mod(r, o) => Action::Arith(r, o),
            Insn::Xor(r, o) => Action::Arith(r, o),
            Insn::Mov(r, o) => Action::Arith(r, o),
            Insn::Arsh(r, o) => Action::Arith(r, o),
            Insn::Neg(r) => Action::Negate(r),
            Insn::Lddw(r, o) => Action::LoadValue(r, o),
            Insn::Ldxdw(r, o) => Action::Load(r, o, 64),
            Insn::Ldxw(r, o) => Action::Load(r, o, 32),
            Insn::Ldxh(r, o) => Action::Load(r, o, 16),
            Insn::Ldxb(r, o) => Action::Load(r, o, 8),
            Insn::Stdw(loc, val) => Action::Store(loc, val, 64),
            Insn::Stw(loc, val) => Action::Store(loc, val, 32),
            Insn::Sth(loc, val) => Action::Store(loc, val, 16),
            Insn::Stb(loc, val) => Action::Store(loc, val, 8),
            Insn::Ja(off) => Action::JumpSigned(
                Register::R0,
                Operand::Imm(Immediate::Val(0)),
                off,
                Cond::Always,
            ),
            Insn::Jeq(dst, src, off) => Action::JumpUnsigned(dst, src, off, Cond::Equal),
            Insn::Jne(dst, src, off) => Action::JumpUnsigned(dst, src, off, Cond::NotEqual),
            Insn::Jset(dst, src, off) => Action::JumpUnsigned(dst, src, off, Cond::CommonBit),
            Insn::Jgt(dst, src, off) => Action::JumpUnsigned(dst, src, off, Cond::Greater),
            Insn::Jge(dst, src, off) => Action::JumpUnsigned(dst, src, off, Cond::GreaterOrEqual),
            Insn::Jlt(dst, src, off) => Action::JumpUnsigned(dst, src, off, Cond::Less),
            Insn::Jle(dst, src, off) => Action::JumpUnsigned(dst, src, off, Cond::LessOrEqual),
            Insn::Jsgt(dst, src, off) => Action::JumpSigned(dst, src, off, Cond::Greater),
            Insn::Jsge(dst, src, off) => Action::JumpSigned(dst, src, off, Cond::GreaterOrEqual),
            Insn::Jslt(dst, src, off) => Action::JumpSigned(dst, src, off, Cond::Less),
            Insn::Jsle(dst, src, off) => Action::JumpSigned(dst, src, off, Cond::LessOrEqual),
            Insn::Stop => Action::Halt,
        }
    }
}

impl Insn {
    /// The jump with its displacement replaced by `off`. An instruction
    /// that is no jump is left as it is.
    pub open spec fn with_offset(self, off: Immediate) -> Insn {
        match self {
            Insn::Ja(_) => Insn::Ja(off),
            Insn::Jeq(dst, src, _) => Insn::Jeq(dst, src, off),
            Insn::Jne(dst, src, _) => Insn::Jne(dst, src, off),
            Insn::Jset(dst, src, _) => Insn::Jset(dst, src, off),
            Insn::Jgt(dst, src, _) => Insn::Jgt(dst, src, off),
            Insn::Jge(dst, src, _) => Insn::Jge(dst, src, off),
            Insn::Jlt(dst, src, _) => Insn::Jlt(dst, src, off),
            Insn::Jle(dst, src, _) => Insn::Jle(dst, src, off),
            Insn::Jsgt(dst, src, _) => Insn::Jsgt(dst, src, off),
            Insn::Jsge(dst, src, _) => Insn::Jsge(dst, src, off),
            Insn::Jslt(dst, src, _) => Insn::Jslt(dst, src, off),
            Insn::Jsle(dst, src, _) => Insn::Jsle(dst, src, off),
            _ => self,
        }
    }
}

impl Action {
    /// The register that the action writes, if it writes one.
    pub open spec fn target(self) -> Option<Register> {
        match self {
            Action::Arith(r, _) => Some(r),
            Action::Negate(r) => Some(r),
            Action::LoadValue(r, _) => Some(r),
            Action::Load(r, _, _) => Some(r),
            _ => None,
        }
    }

    /// Whether the action is a jump.
    pub open spec fn is_jump(self) -> bool {
        self is JumpUnsigned || self is JumpSigned
    }
}

/// The instructions of a labelled program, in order, labels left out.
pub open spec fn insns_of(entries: Seq<LabeledTapeEntry>) -> Seq<Insn>
    decreases entries.len(),
{
    if entries.len() == 0 {
        Seq::empty()
    } else {
        match entries.last() {
            LabeledTapeEntry::Insn(i) => insns_of(entries.drop_last()).push(i),
            LabeledTapeEntry::Lbl(_) => insns_of(entries.drop_last()),
        }
    }
}

/// The label table of a labelled program: each declared name is bound to the
/// number of instructions that stand before its declaration. Where a name is
/// declared more than once, the last declaration counts.
pub open spec fn labels_of(entries: Seq<LabeledTapeEntry>) -> Map<Seq<char>, usize>
    decreases entries.len(),
{
    if entries.len() == 0 {
        Map::empty()
    } else {
        match entries.last() {
            LabeledTapeEntry::Insn(_) => labels_of(entries.drop_last()),
            LabeledTapeEntry::Lbl(name) => labels_of(entries.drop_last()).insert(
                name@,
                insns_of(entries.drop_last()).len() as usize,
            ),
        }
    }
}

/// The state in which a machine with the given tape and labels starts:
/// all registers and cells zero, the program counter at the first instruction.
pub open spec fn initial_state(tape: Seq<Insn>, labels: Map<Seq<char>, usize>) -> MachineState {
    MachineState {
        tape,
        regs: Seq::new(NUM_REGS as nat, |i: int| 0i64),
        mem: Seq::new(MEM_SIZE as nat, |i: int| 0i64),
        pc: 0,
        labels,
    }
}

impl MachineState {
    /// The register file and the memory have their fixed sizes. This holds
    /// of the view of every machine.
    pub open spec fn well_formed(self) -> bool {
        self.regs.len() == NUM_REGS && self.mem.len() == MEM_SIZE
    }

    /// The current value of a register.
    pub open spec fn reg(self, r: Register) -> i64 {
        self.regs[r.ordinal()]
    }

    /// The state with one register replaced.
    pub open spec fn with_reg(self, r: Register, v: i64) -> MachineState {
        MachineState { regs: self.regs.update(r.ordinal(), v), ..self }
    }

    /// The state with one memory cell replaced.
    pub open spec fn with_cell(self, addr: int, v: i64) -> MachineState {
        MachineState { mem: self.mem.update(addr, v), ..self }
    }

    /// The state with the program counter replaced.
    pub open spec fn with_pc(self, pc: usize) -> MachineState {
        MachineState { pc, ..self }
    }

    /// The value of an immediate: a literal stands for itself, a label for
    /// the displacement from the current instruction to the labelled one.
    pub open spec fn imm(self, i: Immediate) -> Result<i64, Fault> {
        match i {
            Immediate::Val(v) => Ok(v as i64),
            Immediate::Lbl(name) => if self.labels.contains_key(name@) {
                Ok(displacement(self.labels[name@], self.pc))
            } else {
                Err(Fault::UnknownLabel)
            },
        }
    }

    /// The value of an operand.
    pub open spec fn operand(self, o: Operand) -> Result<i64, Fault> {
        match o {
            Operand::Imm(i) => self.imm(i),
            Operand::Reg(r) => Ok(self.reg(r)),
            Operand::Ind(r, i) => match self.imm(i) {
                Ok(v) => Ok(wrap64(self.reg(r) + v)),
                Err(f) => Err(f),
            },
        }
    }

    /// The value that the arithmetic or logic instruction `insn` computes
    /// with `r` as its register and `o` as its operand.
    #[verifier::opaque]
    pub open spec fn binop(self, insn: Insn, r: Register, o: Operand) -> Result<i64, Fault> {
        match self.operand(o) {
            Ok(b) => alu(insn, self.reg(r), b),
            Err(f) => Err(f),
        }
    }

    /// An arithmetic or logic instruction: the register receives the value
    /// computed from it and the operand.
    pub open spec fn arith(self, insn: Insn, r: Register, o: Operand) -> Result<MachineState, Fault> {
        match self.binop(insn, r, o) {
            Ok(v) => Ok(self.with_reg(r, v)),
            Err(f) => Err(f),
        }
    }

    /// A load: the register receives the whole cell that the operand addresses.
    #[verifier::opaque]
    pub open spec fn load(self, r: Register, o: Operand, width: i64) -> Result<MachineState, Fault> {
        match self.operand(o) {
            Ok(a) => if effective_address(a, width) < MEM_SIZE {
                Ok(self.with_reg(r, self.mem[effective_address(a, width) as int]))
            } else {
                Err(Fault::OutOfBoundsAddress)
            },
            Err(f) => Err(f),
        }
    }

    /// A store: the cell that `loc` addresses receives the whole value of `val`.
    #[verifier::opaque]
    pub open spec fn store(self, loc: Operand, val: Operand, width: i64) -> Result<MachineState, Fault> {
        match self.operand(loc) {
            Ok(a) => match self.operand(val) {
                Ok(v) => if effective_address(a, width) < MEM_SIZE {
                    Ok(self.with_cell(effective_address(a, width) as int, v))
                } else {
                    Err(Fault::OutOfBoundsAddress)
                },
                Err(f) => Err(f),
            },
            Err(f) => Err(f),
        }
    }

    /// A jump on an unsigned comparison: the displacement `off` is applied
    /// to the program counter if `cnd` holds between the register and the
    /// operand, both read as unsigned values.
    #[verifier::opaque]
    pub open spec fn jump_unsigned(self, dst: Register, src: Operand, off: Immediate, cnd: Cond) -> Result<MachineState, Fault> {
        match self.operand(src) {
            Ok(s) => match self.imm(off) {
                Ok(d) => if cnd.holds_unsigned(self.reg(dst) as u64, s as u64) {
                    Ok(self.with_pc(jump_target(self.pc, d as int)))
                } else {
                    Ok(self)
                },
                Err(f) => Err(f),
            },
            Err(f) => Err(f),
        }
    }

    /// A jump on a signed comparison.
    #[verifier::opaque]
    pub open spec fn jump_signed(self, dst: Register, src: Operand, off: Immediate, cnd: Cond) -> Result<MachineState, Fault> {
        match self.operand(src) {
            Ok(s) => match self.imm(off) {
                Ok(d) => if cnd.holds_signed(self.reg(dst), s) {
                    Ok(self.with_pc(jump_target(self.pc, d as int)))
                } else {
                    Ok(self)
                },
                Err(f) => Err(f),
            },
            Err(f) => Err(f),
        }
    }

    /// What one instruction does to the state, before the program counter
    /// moves on to the next instruction. `Stop` does nothing.
    pub open spec fn effect(self, insn: Insn) -> Result<MachineState, Fault> {
        match insn.action() {
            Action::Arith(r, o) => self.arith(insn, r, o),
            Action::Negate(r) => Ok(self.with_reg(r, wrap64(-self.reg(r)))),
            Action::LoadValue(r, o) => match self.operand(o) {
                Ok(v) => Ok(self.with_reg(r, v)),
                Err(f) => Err(f),
            },
            Action::Load(r, o, width) => self.load(r, o, width),
            Action::Store(loc, val, width) => self.store(loc, val, width),
            Action::JumpUnsigned(dst, src, off, cnd) => self.jump_unsigned(dst, src, off, cnd),
            Action::JumpSigned(dst, src, off, cnd) => self.jump_signed(dst, src, off, cnd),
            Action::Halt => Ok(self),
        }
    }

    /// The instruction under the program counter. It is there only while the
    /// counter is on the tape.
    pub open spec fn current(self) -> Insn
        recommends
            self.pc < self.tape.len(),
    {
        self.tape[self.pc as int]
    }

    /// The machine has nothing left to do: the program counter is past the
    /// tape, or stands on `Stop`.
    pub open spec fn halted(self) -> bool {
        self.pc >= self.tape.len() || self.current() is Stop
    }

    /// One step of a machine that has not halted: the instruction under the
    /// program counter takes effect, then the counter moves on by one. A
    /// jump's displacement is applied first, the move by one after it.
    pub open spec fn step(self) -> Result<MachineState, Fault> {
        match self.effect(self.current()) {
            Ok(s) => Ok(s.with_pc(jump_target(s.pc, 1))),
            Err(f) => Err(f),
        }
    }

    /// A run of at most `n` steps: the state it ends in, and how it ended.
    /// `Ok` means that the machine halted. A fault comes with the state in
    /// which the faulting instruction was met, which that instruction has
    /// not changed. `StepLimit` means that `n` steps were taken and the
    /// machine has still not halted.
    pub open spec fn run(self, n: nat) -> (MachineState, Result<(), Fault>)
        decreases n,
    {
        if self.halted() {
            (self, Ok(()))
        } else if n == 0 {
            (self, Err(Fault::StepLimit))
        } else {
            match self.step() {
                Ok(next) => next.run((n - 1) as nat),
                Err(f) => (self, Err(f)),
            }
        }
    }
}

} // verus!
