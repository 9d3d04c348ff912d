//! The vocabulary of the machine: registers, operands, instructions,
//! labelled programs, faults, and the machine itself.

use vstd::hash_map::StringHashMap;
use vstd::prelude::*;

verus! {

/// Number of cells in a machine's memory.
pub const MEM_SIZE: usize = 8000;

/// Number of registers in the register file.
pub const NUM_REGS: usize = 11;

/// A register name. Registers are keys only: the values live in the machine.
#[derive(Copy, Clone, PartialEq, Eq, Structural, Hash, Debug)]
pub enum Register {
    R0,
    R1,
    R2,
    R3,
    R4,
    R5,
    R6,
    R7,
    R8,
    R9,
    R10,
}

impl Register {
    /// Position of the register in the register file.
    pub open spec fn ordinal(self) -> int {
        match self {
            Register::R0 => 0,
            Register::R1 => 1,
            Register::R2 => 2,
            Register::R3 => 3,
            Register::R4 => 4,
            Register::R5 => 5,
            Register::R6 => 6,
            Register::R7 => 7,
            Register::R8 => 8,
            Register::R9 => 9,
            Register::R10 => 10,
        }
    }

    /// Position of the register in the register file.
    pub fn index(self) -> (i: usize)
        ensures
            i == self.ordinal(),
            i < NUM_REGS,
    {
        match self {
            Register::R0 => 0,
            Register::R1 => 1,
            Register::R2 => 2,
            Register::R3 => 3,
            Register::R4 => 4,
            Register::R5 => 5,
            Register::R6 => 6,
            Register::R7 => 7,
            Register::R8 => 8,
            Register::R9 => 9,
            Register::R10 => 10,
        }
    }
}

/// An immediate: a literal, or the name of a label standing for the
/// displacement from the current instruction to the labelled one.
#[derive(Copy, Clone, Debug)]
pub enum Immediate {
    Val(i32),
    Lbl(&'static str),
}

/// A value source for an instruction.
#[derive(Copy, Clone, Debug)]
pub enum Operand {
    /// An immediate value.
    Imm(Immediate),
    /// The current value of a register.
    Reg(Register),
    /// A register value plus an immediate offset; used to form addresses.
    Ind(Register, Immediate),
}

/// One instruction of the machine.
#[derive(Copy, Clone, Debug)]
pub enum Insn {
    // Arithmetic and logic: destination register, source operand.
    Add(Register, Operand),
    Sub(Register, Operand),
    Mul(Register, Operand),
    Div(Register, Operand),
    Or(Register, Operand),
    And(Register, Operand),
    Lsh(Register, Operand),
    Rsh(Register, Operand),
    Mod(Register, Operand),
    Xor(Register, Operand),
    Mov(Register, Operand),
    Arsh(Register, Operand),
    Neg(Register),
    /// Load the operand's value itself into the register.
    Lddw(Register, Operand),
    /// Load from the cell addressed by the operand (64-bit address).
    Ldxdw(Register, Operand),
    /// Load from the cell addressed by the operand (32-bit address).
    Ldxw(Register, Operand),
    /// Load from the cell addressed by the operand (16-bit address).
    Ldxh(Register, Operand),
    /// Load from the cell addressed by the operand (8-bit address).
    Ldxb(Register, Operand),
    /// Store the second operand in the cell addressed by the first (64-bit address).
    Stdw(Operand, Operand),
    /// Store the second operand in the cell addressed by the first (32-bit address).
    Stw(Operand, Operand),
    /// Store the second operand in the cell addressed by the first (16-bit address).
    Sth(Operand, Operand),
    /// Store the second operand in the cell addressed by the first (8-bit address).
    Stb(Operand, Operand),
    /// Unconditional jump.
    Ja(Immediate),
    // Conditional jumps comparing register and operand as unsigned values.
    Jeq(Register, Operand, Immediate),
    Jne(Register, Operand, Immediate),
    Jset(Register, Operand, Immediate),
    Jgt(Register, Operand, Immediate),
    Jge(Register, Operand, Immediate),
    Jlt(Register, Operand, Immediate),
    Jle(Register, Operand, Immediate),
    // Conditional jumps comparing register and operand as signed values.
    Jsgt(Register, Operand, Immediate),
    Jsge(Register, Operand, Immediate),
    Jslt(Register, Operand, Immediate),
    Jsle(Register, Operand, Immediate),
    /// End of the run.
    Stop,
}

/// An entry of a labelled program: an instruction, or a label naming the
/// position of the next instruction. A label takes no slot on the tape.
#[derive(Copy, Clone, Debug)]
pub enum LabeledTapeEntry {
    Lbl(&'static str),
    Insn(Insn),
}

/// The relation that a jump tests between its two compared values.
#[derive(Copy, Clone, PartialEq, Eq, Structural, Debug)]
pub enum Cond {
    Always,
    Equal,
    NotEqual,
    /// The two values have a set bit in common.
    CommonBit,
    Greater,
    GreaterOrEqual,
    Less,
    LessOrEqual,
}

/// What an instruction does, by kind. Every instruction is one of these
/// actions with its operands filled in.
#[derive(Copy, Clone, Debug)]
pub enum Action {
    /// Compute a value from a register and an operand, and write the register.
    Arith(Register, Operand),
    /// Negate a register.
    Negate(Register),
    /// Write the operand's value itself to the register.
    LoadValue(Register, Operand),
    /// Load the register from the addressed cell, with an address of the given width.
    Load(Register, Operand, i64),
    /// Store a value in the addressed cell, with an address of the given width.
    Store(Operand, Operand, i64),
    /// Jump if the relation holds of register and operand as unsigned values.
    JumpUnsigned(Register, Operand, Immediate, Cond),
    /// Jump if the relation holds of register and operand as signed values.
    JumpSigned(Register, Operand, Immediate, Cond),
    /// End the run.
    Halt,
}

/// Why a run could not go on.
#[derive(Copy, Clone, PartialEq, Eq, Structural, Debug)]
pub enum Fault {
    /// An immediate names a label that the program does not declare.
    UnknownLabel,
    /// `Div` or `Mod` with a zero divisor.
    DivisionByZero,
    /// `Div` or `Mod` of the least 64-bit value by -1.
    DivisionOverflow,
    /// A load or store whose address lies outside the memory.
    OutOfBoundsAddress,
    /// An instruction reached a routine that does not handle its kind.
    InvalidOpcodeForHandler,
    /// The step budget of a run was used up before the machine halted.
    StepLimit,
}

/// The machine: a tape of instructions, the register file, the memory, the
/// program counter and the label table of the program.
pub struct Machine {
    pub tape: Vec<Insn>,
    pub regs: [i64; NUM_REGS],
    pub mem: [i64; MEM_SIZE],
    pub pc: usize,
    pub labels: StringHashMap<usize>,
}

/// The machine as a mathematical value.
#[verifier::ext_equal]
pub struct MachineState {
    pub tape: Seq<Insn>,
    pub regs: Seq<i64>,
    pub mem: Seq<i64>,
    pub pc: usize,
    pub labels: Map<Seq<char>, usize>,
}

impl View for Machine {
    type V = MachineState;

    open spec fn view(&self) -> MachineState {
        MachineState {
            tape: self.tape@,
            regs: self.regs@,
            mem: self.mem@,
            pc: self.pc,
            labels: self.labels@,
        }
    }
}

} // verus!
