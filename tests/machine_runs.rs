use sym_exec::instructions::{ADD, CALLDATALOAD, ISZERO, PUSH1, STOP};
use sym_exec::{check_witness, ConcreteStack, Machine, Predicate, Return, Stack, SymWord, VecBackedSymStack, Word, IR};

fn input_sum_is_zero_code() -> Vec<u8> {
    vec![PUSH1, 1, CALLDATALOAD, PUSH1, 0, CALLDATALOAD, ADD, ISZERO]
}

#[test]
fn end_to_end_symbolic_sum_tested_for_zero() {
    let mut m: Machine<VecBackedSymStack> = Machine::new(input_sum_is_zero_code());
    let r = m.run();
    assert_eq!(r, Return::Stop);
    assert_eq!(m.predicates.len(), 1);
    match &m.predicates[0] {
        Predicate::EqZero(IR::ADD(a, b)) => {
            assert!(matches!(**a, IR::Input(0)));
            assert!(matches!(**b, IR::Input(1)));
        }
        other => panic!("unexpected predicate {:?}", other),
    }
    // the then-branch was taken: one is on the stack
    assert_eq!(m.stack.len(), 1);
    assert!(matches!(m.stack.pop(), Ok(SymWord::Concrete(w)) if w == Word::from_u64(1)));
    let witness = vec![0u8, 0u8];
    assert!(check_witness(&m.predicates, &witness));
    assert_eq!((witness[0] as u32 + witness[1] as u32) % 256, 0);
    assert!(!check_witness(&m.predicates, &vec![0u8, 7u8]));
}

#[test]
fn empty_code_halts_at_once() {
    let mut m: Machine<VecBackedSymStack> = Machine::new(vec![]);
    assert_eq!(m.run(), Return::Stop);
    assert_eq!(m.stack.len(), 0);
    assert!(m.predicates.is_empty());
    assert_eq!(m.program_counter, 0);
}

#[test]
fn concrete_run_adds_and_tests() {
    let mut m: Machine<ConcreteStack> = Machine::new(vec![PUSH1, 2, PUSH1, 3, ADD]);
    assert_eq!(m.run(), Return::Stop);
    assert_eq!(m.stack.words(), &vec![Word::from_u64(5)]);

    let mut m: Machine<ConcreteStack> = Machine::new(vec![PUSH1, 0, ISZERO, PUSH1, 9, ISZERO]);
    assert_eq!(m.run(), Return::Stop);
    assert_eq!(m.stack.words(), &vec![Word::from_u64(1), Word::from_u64(0)]);
    assert!(m.predicates.is_empty());
}

#[test]
fn concrete_stack_turns_away_symbolic_input() {
    let mut m: Machine<ConcreteStack> = Machine::new(vec![PUSH1, 0, CALLDATALOAD]);
    assert_eq!(m.run(), Return::NotConcrete);
    assert_eq!(m.stack.len(), 0);
}

#[test]
fn explicit_stop_ends_run() {
    let mut m: Machine<VecBackedSymStack> = Machine::new(vec![PUSH1, 4, STOP, PUSH1, 5]);
    assert_eq!(m.run(), Return::Stop);
    assert_eq!(m.stack.len(), 1);
    assert_eq!(m.program_counter, 3);
}

#[test]
fn unknown_opcode_is_invalid() {
    let mut m: Machine<VecBackedSymStack> = Machine::new(vec![0xfe]);
    assert_eq!(m.run(), Return::InvalidOpcode);
}

#[test]
fn add_on_short_stack_underflows() {
    let mut m: Machine<VecBackedSymStack> = Machine::new(vec![ADD]);
    assert_eq!(m.run(), Return::StackUnderflow);
    let mut m: Machine<VecBackedSymStack> = Machine::new(vec![PUSH1, 1, ADD]);
    assert_eq!(m.run(), Return::StackUnderflow);
    assert_eq!(m.stack.len(), 0);
}

#[test]
fn push_past_end_of_code_pushes_zero() {
    let mut m: Machine<ConcreteStack> = Machine::new(vec![PUSH1]);
    assert_eq!(m.run(), Return::Stop);
    assert_eq!(m.stack.words(), &vec![Word::from_u64(0)]);
}

#[test]
fn symbolic_is_zero_records_predicate() {
    let mut m: Machine<VecBackedSymStack> = Machine::new(vec![PUSH1, 3, CALLDATALOAD, ISZERO]);
    assert_eq!(m.run(), Return::Stop);
    assert_eq!(m.predicates.len(), 1);
    assert!(matches!(m.predicates[0], Predicate::EqZero(IR::Input(3))));
}

#[test]
fn stack_overflow_on_full_stack() {
    let mut code = Vec::new();
    for _ in 0..1025 {
        code.push(PUSH1);
        code.push(1);
    }
    let mut m: Machine<VecBackedSymStack> = Machine::new(code);
    assert_eq!(m.run(), Return::StackOverflow);
    assert_eq!(m.stack.len(), 1024);
}
