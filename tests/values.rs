use sym_exec::{check_witness, fold_add, ConcreteStack, Predicate, Return, Stack, SymWord, VecBackedSymStack, Word, IR, STACK_LIMIT};

fn max_word() -> Word {
    Word { l0: u64::MAX, l1: u64::MAX, l2: u64::MAX, l3: u64::MAX }
}

#[test]
fn fold_concrete_adds() {
    let r = fold_add(SymWord::Concrete(Word::from_u64(2)), SymWord::Concrete(Word::from_u64(3)));
    assert!(matches!(r, SymWord::Concrete(w) if w == Word::from_u64(5)));
}

#[test]
fn fold_concrete_wraps_on_overflow() {
    let r = fold_add(SymWord::Concrete(max_word()), SymWord::Concrete(Word::from_u64(2)));
    assert!(matches!(r, SymWord::Concrete(w) if w == Word::from_u64(1)));
    let carry = Word { l0: u64::MAX, l1: 0, l2: 0, l3: 0 }.wrapping_add(Word::from_u64(1));
    assert_eq!(carry, Word { l0: 0, l1: 1, l2: 0, l3: 0 });
}

#[test]
fn fold_symbolic_nests_operands() {
    let r = fold_add(SymWord::Sym(IR::Input(0)), SymWord::Concrete(Word::from_u64(7)));
    match r {
        SymWord::Sym(IR::ADD(a, b)) => {
            assert!(matches!(*a, IR::Input(0)));
            assert!(matches!(*b, IR::Base(w) if w == Word::from_u64(7)));
        }
        _ => panic!("expected a symbolic sum"),
    }
    let r = fold_add(SymWord::Concrete(Word::from_u64(1)), SymWord::Sym(IR::Input(2)));
    match r {
        SymWord::Sym(IR::ADD(a, b)) => {
            assert!(matches!(*a, IR::Base(w) if w == Word::from_u64(1)));
            assert!(matches!(*b, IR::Input(2)));
        }
        _ => panic!("expected a symbolic sum"),
    }
}

#[test]
fn sym_stack_bounds() {
    let mut s = VecBackedSymStack::new();
    assert_eq!(s.pop().err(), Some(Return::StackUnderflow));
    for i in 0..STACK_LIMIT {
        assert_eq!(s.push(SymWord::Concrete(Word::from_u64(i as u64))), Ok(()));
    }
    assert_eq!(s.push(SymWord::Sym(IR::Input(0))), Err(Return::StackOverflow));
    assert_eq!(s.len(), STACK_LIMIT);
    assert!(matches!(s.pop(), Ok(SymWord::Concrete(w)) if w == Word::from_u64(1023)));
}

#[test]
fn concrete_stack_bounds() {
    let mut s = ConcreteStack::new();
    assert_eq!(s.pop().err(), Some(Return::StackUnderflow));
    assert_eq!(s.push(SymWord::Sym(IR::Input(0))), Err(Return::NotConcrete));
    for _ in 0..STACK_LIMIT {
        assert_eq!(s.push(SymWord::Concrete(Word::zero())), Ok(()));
    }
    assert_eq!(s.push(SymWord::Concrete(Word::zero())), Err(Return::StackOverflow));
    assert_eq!(s.len(), STACK_LIMIT);
}

#[test]
fn eq_zero_witness_is_zero_byte() {
    let p = vec![Predicate::EqZero(IR::Input(0))];
    assert!(check_witness(&p, &vec![0]));
    for b in 1..=255u8 {
        assert!(!check_witness(&p, &vec![b]));
    }
}

#[test]
fn not_eq_zero_witness_is_nonzero_byte() {
    let p = vec![Predicate::NotEqZero(IR::Input(0))];
    assert!(!check_witness(&p, &vec![0]));
    assert!(check_witness(&p, &vec![1]));
    assert!(check_witness(&p, &vec![255]));
}

#[test]
fn empty_path_accepts_any_input() {
    assert!(check_witness(&vec![], &vec![]));
    assert!(check_witness(&vec![], &vec![42]));
}

#[test]
fn contradictory_path_has_no_witness() {
    let p = vec![Predicate::EqZero(IR::Input(0)), Predicate::NotEqZero(IR::Input(0))];
    for b in 0..=255u8 {
        assert!(!check_witness(&p, &vec![b]));
    }
}

#[test]
fn evaluate_wraps_and_reads_past_end_as_zero() {
    let e = IR::ADD(Box::new(IR::Base(max_word())), Box::new(IR::Input(0)));
    assert_eq!(e.evaluate(&vec![1]), Word::zero());
    assert_eq!(e.evaluate(&vec![]), max_word());
    assert_eq!(IR::Input(5).evaluate(&vec![9, 9]), Word::zero());
}

#[test]
fn word_arithmetic_wrappers() {
    assert_eq!(max_word().checked_add(Word::from_u64(1)), None);
    assert_eq!(Word::from_u64(4).checked_add(Word::from_u64(5)), Some(Word::from_u64(9)));
    let two_64 = Word { l0: 0, l1: 1, l2: 0, l3: 0 };
    assert_eq!(two_64.checked_mul(two_64), Some(Word { l0: 0, l1: 0, l2: 1, l3: 0 }));
    assert_eq!(max_word().checked_mul(Word::from_u64(2)), None);
    assert_eq!(Word::from_u64(70).div_mod(Word::from_u64(32)), (Word::from_u64(2), Word::from_u64(6)));
    assert_eq!(two_64.low_u64(), None);
    assert_eq!(Word::from_u64(77).low_u64(), Some(77));
    assert_eq!(two_64.byte_len(), 9);
    assert_eq!(Word::zero().byte_len(), 0);
    assert_eq!(max_word().byte_len(), 32);
}

#[test]
fn conversions_into_values() {
    assert!(matches!(SymWord::from(IR::Input(4)), SymWord::Sym(IR::Input(4))));
    assert!(matches!(SymWord::from(Word::from_u64(8)), SymWord::Concrete(w) if w == Word::from_u64(8)));
    assert!(matches!(IR::from(Word::from_u64(9)), IR::Base(w) if w == Word::from_u64(9)));
    let r = sym_exec::RetUint { n1: 1, n2: 2, n3: 3, n4: 4 };
    assert_eq!(Word::from(r), Word { l0: 1, l1: 2, l2: 3, l3: 4 });
}
