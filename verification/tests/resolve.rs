use bpfeval::interp;
use bpfeval::types::Action;
use bpfeval::types::Cond;
use bpfeval::types::Immediate::{self, Val};
use bpfeval::types::Insn::{Add, Ja, Jge, Jsle, Lddw, Ldxh, Neg, Stop, Stw};
use bpfeval::types::LabeledTapeEntry::{self, Insn};
use bpfeval::types::Machine;
use bpfeval::types::Operand::{Imm, Reg};
use bpfeval::types::Register::{R0, R1, R2, R3, R4};

fn fibonacci() -> Vec<LabeledTapeEntry> {
    vec![
        Insn(Lddw(R0, Imm(Val(1)))),
        Insn(Lddw(R1, Imm(Val(0)))),
        Insn(Lddw(R2, Imm(Val(0)))),
        Insn(Lddw(R3, Imm(Val(10)))),
        LabeledTapeEntry::Lbl("TEST"),
        Insn(Jge(R2, Reg(R3), Immediate::Lbl("FIN"))),
        Insn(Lddw(R4, Reg(R0))),
        Insn(Add(R0, Reg(R1))),
        Insn(Lddw(R1, Reg(R4))),
        Insn(Add(R2, Imm(Val(1)))),
        Insn(Ja(Immediate::Lbl("TEST"))),
        LabeledTapeEntry::Lbl("FIN"),
        Insn(Stop),
    ]
}

#[test]
fn delabel_binds_labels_to_the_next_instruction() {
    let (labels, tape) = interp::delabel_tape(fibonacci());
    assert_eq!(tape.len(), 11);
    assert_eq!(labels.len(), 2);
    assert_eq!(labels.get("TEST"), Some(&4));
    assert_eq!(labels.get("FIN"), Some(&10));
    assert_eq!(labels.get("test"), None);
    assert!(matches!(tape[4], Jge(R2, Reg(R3), Immediate::Lbl("FIN"))));
    assert!(matches!(tape[10], Stop));
}

#[test]
fn delabel_keeps_the_instructions_in_order() {
    let (_, tape) = interp::delabel_tape(fibonacci());
    assert!(matches!(tape[0], Lddw(R0, Imm(Val(1)))));
    assert!(matches!(tape[1], Lddw(R1, Imm(Val(0)))));
    assert!(matches!(tape[2], Lddw(R2, Imm(Val(0)))));
    assert!(matches!(tape[3], Lddw(R3, Imm(Val(10)))));
    assert!(matches!(tape[5], Lddw(R4, Reg(R0))));
    assert!(matches!(tape[6], Add(R0, Reg(R1))));
    assert!(matches!(tape[7], Lddw(R1, Reg(R4))));
    assert!(matches!(tape[8], Add(R2, Imm(Val(1)))));
    assert!(matches!(tape[9], Ja(Immediate::Lbl("TEST"))));
}

#[test]
fn delabel_of_nothing() {
    let (labels, tape) = interp::delabel_tape(Vec::new());
    assert!(tape.is_empty());
    assert!(labels.is_empty());
}

#[test]
fn labels_take_no_slot() {
    let program: Vec<LabeledTapeEntry> = vec![
        LabeledTapeEntry::Lbl("a"),
        LabeledTapeEntry::Lbl("b"),
        Insn(Stop),
        LabeledTapeEntry::Lbl("c"),
        LabeledTapeEntry::Lbl("d"),
    ];
    let (labels, tape) = interp::delabel_tape(program);
    assert_eq!(tape.len(), 1);
    assert_eq!(labels.get("a"), Some(&0));
    assert_eq!(labels.get("b"), Some(&0));
    assert_eq!(labels.get("c"), Some(&1));
    assert_eq!(labels.get("d"), Some(&1));
}

#[test]
fn last_declaration_of_a_name_counts() {
    let program: Vec<LabeledTapeEntry> = vec![
        LabeledTapeEntry::Lbl("twice"),
        Insn(Add(R0, Imm(Val(1)))),
        Insn(Add(R0, Imm(Val(1)))),
        LabeledTapeEntry::Lbl("twice"),
        Insn(Stop),
    ];
    let (labels, tape) = interp::delabel_tape(program);
    assert_eq!(tape.len(), 3);
    assert_eq!(labels.len(), 1);
    assert_eq!(labels.get("twice"), Some(&2));
}

#[test]
fn label_after_the_last_instruction() {
    let program: Vec<LabeledTapeEntry> = vec![
        Insn(Ja(Immediate::Lbl("END"))),
        Insn(Add(R0, Imm(Val(1)))),
        LabeledTapeEntry::Lbl("END"),
    ];
    let mut mach = Machine::new_labeled(program);
    assert_eq!(mach.labels.get("END"), Some(&2));
    assert_eq!(interp::run_tape(&mut mach), Ok(()));
    assert_eq!(mach.pc, 2);
    assert_eq!(mach.val_of_reg(R0), 0);
}

#[test]
fn new_machines_start_from_zero() {
    let flat = Machine::new(vec![Stop, Stop]);
    assert_eq!(flat.pc, 0);
    assert_eq!(flat.tape.len(), 2);
    assert!(flat.labels.is_empty());
    assert!(flat.regs.iter().all(|r| *r == 0));
    assert!(flat.mem.iter().all(|c| *c == 0));
    let labeled = Machine::new_labeled(fibonacci());
    assert_eq!(labeled.pc, 0);
    assert_eq!(labeled.tape.len(), 11);
    assert_eq!(labeled.labels.len(), 2);
    assert!(labeled.regs.iter().all(|r| *r == 0));
    assert!(labeled.mem.iter().all(|c| *c == 0));
}

#[test]
fn fibonacci_numbers() {
    let expected: [i64; 6] = [1, 1, 2, 3, 5, 8];
    for (rounds, fib) in expected.iter().enumerate() {
        let mut mach = Machine::new_labeled(fibonacci());
        // Replace the bound of ten rounds.
        mach.tape[3] = Lddw(R3, Imm(Val(rounds as i32)));
        assert_eq!(interp::run_tape(&mut mach), Ok(()));
        assert_eq!(mach.val_of_reg(R0), *fib);
        assert_eq!(mach.val_of_reg(R2), rounds as i64);
        assert_eq!(mach.pc, 10);
    }
}

#[test]
fn actions_of_instructions() {
    assert!(matches!(interp::decode(Add(R1, Imm(Val(2)))), Action::Arith(R1, Imm(Val(2)))));
    assert!(matches!(interp::decode(Neg(R1)), Action::Negate(R1)));
    assert!(matches!(interp::decode(Lddw(R1, Reg(R2))), Action::LoadValue(R1, Reg(R2))));
    assert!(matches!(interp::decode(Ldxh(R1, Reg(R2))), Action::Load(R1, Reg(R2), 16)));
    assert!(matches!(interp::decode(Stw(Reg(R2), Reg(R1))), Action::Store(Reg(R2), Reg(R1), 32)));
    assert!(matches!(
        interp::decode(Jge(R1, Reg(R2), Val(3))),
        Action::JumpUnsigned(R1, Reg(R2), Val(3), Cond::GreaterOrEqual)
    ));
    assert!(matches!(
        interp::decode(Jsle(R1, Reg(R2), Val(3))),
        Action::JumpSigned(R1, Reg(R2), Val(3), Cond::LessOrEqual)
    ));
    assert!(matches!(interp::decode(Ja(Val(3))), Action::JumpSigned(_, _, Val(3), Cond::Always)));
    assert!(matches!(interp::decode(Stop), Action::Halt));
}
