use vstd::prelude::*;
use crate::machine::Machine;
use crate::signal::Return;
use crate::stack::Stack;
use crate::sym::{fold_add, is_folded_add, Predicate, SymWord, IR};
use crate::word::{Word, limb_base};

verus! {

pub const STOP: u8 = 0x00;
pub const ADD: u8 = 0x01;
pub const ISZERO: u8 = 0x15;
pub const CALLDATALOAD: u8 = 0x35;
pub const PUSH1: u8 = 0x60;

/// What every step keeps: the machine stays well formed, the code is never
/// written, the counter never moves back and predicates are only appended.
pub open spec fn frame<S: Stack>(pre: Machine<S>, post: Machine<S>) -> bool {
    &&& post.wf()
    &&& post.code@ == pre.code@
    &&& post.program_counter >= pre.program_counter
    &&& pre.predicates@.is_prefix_of(post.predicates@)
}

/// `post` follows from `pre` by a push of `v` onto the stack `t`.
pub open spec fn pushed<S: Stack>(t: Seq<SymWord>, v: SymWord, post: Seq<SymWord>, r: Return) -> bool {
    if S::accepts(v) {
        r == Return::Continue && post == t.push(v)
    } else {
        r == Return::NotConcrete && post == t
    }
}

/// `ADD`: pops two values and pushes their folded sum, the top operand first.
pub open spec fn add_post<S: Stack>(pre: Machine<S>, post: Machine<S>, r: Return) -> bool {
    let s = pre.stack.contents();
    let t = post.stack.contents();
    &&& post.program_counter == pre.program_counter
    &&& post.predicates@ == pre.predicates@
    &&& s.len() == 0 ==> r == Return::StackUnderflow && t == s
    &&& s.len() == 1 ==> r == Return::StackUnderflow && t == s.drop_last()
    &&& s.len() >= 2 ==> exists|v: SymWord|
        #![trigger is_folded_add(s[s.len() - 1], s[s.len() - 2], v)]
        is_folded_add(s[s.len() - 1], s[s.len() - 2], v) && pushed::<S>(
            s.drop_last().drop_last(),
            v,
            t,
            r,
        )
}

pub fn add<S: Stack>(machine: &mut Machine<S>) -> (r: Return)
    requires
        old(machine).wf(),
    ensures
        frame(*old(machine), *final(machine)),
        add_post(*old(machine), *final(machine), r),
{
    let ghost s = machine.stack.contents();
    let op1 = match machine.stack.pop() {
        Ok(x) => x,
        Err(ret) => return ret,
    };
    let op2 = match machine.stack.pop() {
        Ok(x) => x,
        Err(ret) => return ret,
    };
    let v = fold_add(op1, op2);
    let r = match machine.stack.push(v) {
        Ok(()) => Return::Continue,
        Err(ret) => ret,
    };
    assert(is_folded_add(s[s.len() - 1], s[s.len() - 2], v));
    r
}

/// `ISZERO`: a known word gives one or zero at once; a symbolic one records
/// `EqZero` of it and goes on along the branch where it is zero, pushing one.
pub open spec fn iszero_post<S: Stack>(pre: Machine<S>, post: Machine<S>, r: Return) -> bool {
    let s = pre.stack.contents();
    let t = post.stack.contents();
    &&& post.program_counter == pre.program_counter
    &&& s.len() == 0 ==> r == Return::StackUnderflow && t == s && post.predicates@
        == pre.predicates@
    &&& s.len() > 0 ==> r == Return::Continue && match s.last() {
        SymWord::Concrete(w) => post.predicates@ == pre.predicates@ && t == s.drop_last().push(
            SymWord::Concrete(Word::of_bool(w.val() == 0)),
        ),
        SymWord::Sym(e) => post.predicates@ == pre.predicates@.push(Predicate::EqZero(e))
            && t == s.drop_last().push(SymWord::Concrete(Word::of_bool(true))),
    }
}

pub fn iszero<S: Stack>(machine: &mut Machine<S>) -> (r: Return)
    requires
        old(machine).wf(),
    ensures
        frame(*old(machine), *final(machine)),
        iszero_post(*old(machine), *final(machine), r),
{
    let op = match machine.stack.pop() {
        Ok(x) => x,
        Err(ret) => return ret,
    };
    let flag = match op {
        SymWord::Concrete(w) => Word::from_bool(w.is_zero()),
        SymWord::Sym(e) => {
            machine.predicates.push(Predicate::EqZero(e));
            Word::from_bool(true)
        },
    };
    proof {
        S::lemma_accepts_concrete(flag);
    }
    match machine.stack.push(SymWord::Concrete(flag)) {
        Ok(()) => Return::Continue,
        Err(ret) => ret,
    }
}

/// `CALLDATALOAD`: pops a known offset and pushes the input byte there as a
/// symbolic value; an offset past any input gives zero.
pub open spec fn calldataload_post<S: Stack>(pre: Machine<S>, post: Machine<S>, r: Return) -> bool {
    let s = pre.stack.contents();
    let t = post.stack.contents();
    &&& post.program_counter == pre.program_counter
    &&& post.predicates@ == pre.predicates@
    &&& s.len() == 0 ==> r == Return::StackUnderflow && t == s
    &&& s.len() > 0 ==> match s.last() {
        SymWord::Concrete(w) => if w.val() <= usize::MAX {
            pushed::<S>(s.drop_last(), SymWord::Sym(IR::Input(w.val() as usize)), t, r)
        } else {
            r == Return::Continue && t == s.drop_last().push(SymWord::Concrete(Word::of_bool(false)))
        },
        SymWord::Sym(_) => r == Return::NotConcrete && t == s.drop_last(),
    }
}

pub fn calldataload<S: Stack>(machine: &mut Machine<S>) -> (r: Return)
    requires
        old(machine).wf(),
    ensures
        frame(*old(machine), *final(machine)),
        calldataload_post(*old(machine), *final(machine), r),
{
    let op = match machine.stack.pop() {
        Ok(x) => x,
        Err(ret) => return ret,
    };
    let v = match op {
        SymWord::Concrete(w) => {
            proof {
                w.lemma_val_bounds();
            }
            match w.low_u64() {
                Some(n) if n <= usize::MAX as u64 => SymWord::Sym(IR::Input(n as usize)),
                _ => {
                    assert(w.val() > usize::MAX) by {
                        assert(usize::MAX < limb_base());
                    }
                    let z = Word::from_bool(false);
                    proof {
                        S::lemma_accepts_concrete(z);
                    }
                    SymWord::Concrete(z)
                },
            }
        },
        SymWord::Sym(_) => return Return::NotConcrete,
    };
    match machine.stack.push(v) {
        Ok(()) => Return::Continue,
        Err(ret) => ret,
    }
}

/// `PUSH1`: pushes the byte after the opcode, zero where the code has ended.
pub open spec fn push1_post<S: Stack>(pre: Machine<S>, post: Machine<S>, r: Return) -> bool {
    let s = pre.stack.contents();
    let t = post.stack.contents();
    let pc = pre.program_counter;
    let byte: u8 = if pc < pre.code@.len() { pre.code@[pc as int] } else { 0 };
    &&& post.program_counter == if pc < pre.code@.len() { pc + 1 } else { pc as int }
    &&& post.predicates@ == pre.predicates@
    &&& s.len() >= crate::stack::STACK_LIMIT ==> r == Return::StackOverflow && t == s
    &&& s.len() < crate::stack::STACK_LIMIT ==> r == Return::Continue && t == s.push(
        SymWord::Concrete(Word { l0: byte as u64, l1: 0, l2: 0, l3: 0 }),
    )
}

pub fn push1<S: Stack>(machine: &mut Machine<S>) -> (r: Return)
    requires
        old(machine).wf(),
    ensures
        frame(*old(machine), *final(machine)),
        push1_post(*old(machine), *final(machine), r),
{
    let byte: u8 = if machine.program_counter < machine.code.len() {
        let b = machine.code[machine.program_counter];
        machine.program_counter = machine.program_counter + 1;
        b
    } else {
        0
    };
    let w = Word::from_u64(byte as u64);
    proof {
        S::lemma_accepts_concrete(w);
    }
    match machine.stack.push(SymWord::Concrete(w)) {
        Ok(()) => Return::Continue,
        Err(ret) => ret,
    }
}

/// What the routine of `opcode` does to a machine whose counter already
/// stands past the opcode byte; unknown opcodes change nothing.
pub open spec fn opcode_post<S: Stack>(opcode: u8, pre: Machine<S>, post: Machine<S>, r: Return) -> bool {
    if opcode == STOP {
        r == Return::Stop && post == pre
    } else if opcode == ADD {
        add_post(pre, post, r)
    } else if opcode == ISZERO {
        iszero_post(pre, post, r)
    } else if opcode == CALLDATALOAD {
        calldataload_post(pre, post, r)
    } else if opcode == PUSH1 {
        push1_post(pre, post, r)
    } else {
        r == Return::InvalidOpcode && post == pre
    }
}

/// Runs the routine of one opcode; the counter already stands past it.
pub fn eval<S: Stack>(opcode: u8, machine: &mut Machine<S>) -> (r: Return)
    requires
        old(machine).wf(),
    ensures
        frame(*old(machine), *final(machine)),
        opcode_post(opcode, *old(machine), *final(machine), r),
{
    match opcode {
        STOP => Return::Stop,
        ADD => crate::instructions::add(machine),
        ISZERO => iszero(machine),
        CALLDATALOAD => calldataload(machine),
        PUSH1 => push1(machine),
        _ => Return::InvalidOpcode,
    }
}

} // verus!
