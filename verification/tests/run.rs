use x8616_cycles::args::{parse_args, Args};
use x8616_cycles::boot::{check_placement, start_state, LoadError, StartState};
use x8616_cycles::instruction::{Instruction, Mnemonic, OperandType};
use x8616_cycles::report::RunResult;
use x8616_cycles::smoke::fixtures;
use x8616_cycles::ticker::{Action, Event, StepOutcome, Ticker};

fn args(words: &[&str]) -> Args {
    let argv: Vec<String> = words.iter().map(|w| w.to_string()).collect();
    parse_args(&argv).unwrap()
}

fn decoded(mnemonic: Mnemonic, opcode: u8, a: OperandType, b: OperandType) -> Event {
    let instr = Some(Instruction { mnemonic, opcode, operand1_type: a, operand2_type: b });
    Event::Decoded { instr, flags: 0, cl: 0, cx: 0 }
}

/// Retires one instruction that took the given cycles in all.
fn retire(t: &mut Ticker, total: u64) -> Action {
    assert_eq!(t.advance(Event::Stepped(StepOutcome::Completed)), Action::Retire);
    t.advance(Event::Counters { total, halt: 0 })
}

#[test]
fn placement() {
    let a = args(&["p", "--load", "0xffff0"]);
    assert_eq!(check_placement(&a, 16), Ok(()));
    let e = check_placement(&a, 17).unwrap_err();
    assert_eq!(e, LoadError::TooLarge { len: 17, load: 0xffff0 });
    assert_eq!(e.message(), "program (17 bytes @ 0xffff0) overflows the 1 MiB address space");
    let a = args(&["p", "--entry", "0x100000"]);
    let e = check_placement(&a, 1).unwrap_err();
    assert_eq!(e, LoadError::EntryOutside { entry: 0x10_0000 });
    assert_eq!(e.message(), "entry 0x100000 outside address space");
    // Nor does a program fit whose end is past the last address there is.
    let a = args(&["p", "--load", "ffffffffffffffff"]);
    let e = check_placement(&a, 2).unwrap_err();
    assert_eq!(e, LoadError::TooLarge { len: 2, load: usize::MAX });
    let a = args(&["p", "--entry", "ffffffffffffffff"]);
    let e = check_placement(&a, 2).unwrap_err();
    assert_eq!(e, LoadError::EntryOutside { entry: usize::MAX });
    // The size is looked at first.
    let a = args(&["p", "--load", "0x100000", "--entry", "0x100000"]);
    assert!(matches!(check_placement(&a, 1), Err(LoadError::TooLarge { .. })));
    assert!(matches!(check_placement(&a, 0), Err(LoadError::EntryOutside { .. })));
}

#[test]
fn start_registers() {
    let a = args(&["p", "--entry", "0x7e10", "--sp", "0x9000"]);
    let s = StartState { cs: 0, ip: 0x7e10, ss: 0, sp: 0x9000, ds: 0, es: 0 };
    assert_eq!(start_state(&a), s);
    assert_eq!(start_state(&args(&["p", "--entry", "0x12345"])).ip, 0x2345);
}

#[test]
fn run_until_hlt() {
    let mut t = Ticker::new(false, 100);
    assert_eq!(t.awaiting, Action::Step);
    assert_eq!(retire(&mut t, 4), Action::Step);
    assert_eq!(t.advance(Event::Stepped(StepOutcome::Halted)), Action::Stop);
    assert!(t.halted);
    assert_eq!(t.cyc286, 0);
    assert_eq!(t.exit_code(), 0);
}

#[test]
fn halt_seen_in_the_counters() {
    let mut t = Ticker::new(false, 1);
    t.advance(Event::Stepped(StepOutcome::Completed));
    assert_eq!(t.advance(Event::Counters { total: 10, halt: 1 }), Action::Stop);
    assert_eq!(t.exit_code(), 0);
}

#[test]
fn cycle_cap() {
    let mut t = Ticker::new(false, 10);
    assert_eq!(retire(&mut t, 10), Action::Step);
    assert_eq!(retire(&mut t, 11), Action::Stop);
    assert!(!t.halted);
    assert_eq!(t.exit_code(), 2);
}

#[test]
fn fault() {
    let mut t = Ticker::new(false, 10);
    assert_eq!(t.advance(Event::Stepped(StepOutcome::Fault)), Action::Fail);
    assert!(!t.halted);
}

#[test]
fn estimate_of_the_arithmetic_program() {
    let reg = OperandType::Register16;
    let none = OperandType::Other;
    let program = [
        decoded(Mnemonic::MOV, 0x89, reg, reg),
        decoded(Mnemonic::ADD, 0x01, reg, reg),
        decoded(Mnemonic::IMUL, 0xF7, reg, none),
        decoded(Mnemonic::SHL, 0xC1, reg, OperandType::Immediate8(4)),
        decoded(Mnemonic::MOV, 0xBA, reg, OperandType::Immediate16),
    ];
    let mut t = Ticker::new(true, 1_000_000);
    let mut total = 0;
    for e in program {
        assert_eq!(t.awaiting, Action::Decode);
        assert_eq!(t.advance(e), Action::Step);
        total += 10;
        assert_eq!(retire(&mut t, total), Action::Decode);
    }
    assert_eq!(t.advance(decoded(Mnemonic::HLT, 0xF4, none, none)), Action::Step);
    assert_eq!(t.advance(Event::Stepped(StepOutcome::Halted)), Action::Stop);
    assert_eq!(t.cyc286, 2 + 2 + 21 + 9 + 2 + 2);
    assert_eq!(t.cyc286, 38);

    let r = RunResult {
        est286: true,
        cyc286: t.cyc286,
        total,
        halt: 0,
        insns: 6,
        al: 0,
        ax: 0,
        ip: 0x7e0d,
        halted: t.halted,
    };
    assert_eq!(fixtures()[1].check(&r.line(false)), Ok(()));
}

#[test]
fn undecodable_instructions_are_not_charged() {
    let mut t = Ticker::new(true, 10);
    let e = Event::Decoded { instr: None, flags: 0, cl: 0, cx: 0 };
    assert_eq!(t.advance(e), Action::Step);
    assert_eq!(t.cyc286, 0);
}

#[test]
fn cap_ends_a_run() {
    let mut t = Ticker::new(false, 50);
    let mut n = 0;
    while t.awaiting != Action::Stop {
        n += 1;
        retire(&mut t, n);
    }
    assert_eq!(n, 51);
}
