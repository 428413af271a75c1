use vstd::prelude::*;
use crate::instructions::{self, frame, opcode_post};
use crate::signal::Return;
use crate::stack::{Stack, STACK_LIMIT};
use crate::sym::Predicate;

verus! {

/// One run of a bytecode program over a stack of kind `S`.
pub struct Machine<S: Stack> {
    /// The index of the next opcode byte; one past the end halts the run.
    pub program_counter: usize,
    pub code: Vec<u8>,
    pub stack: S,
    /// The path predicates recorded so far, in order; only ever appended to.
    pub predicates: Vec<Predicate>,
}

/// One step from `pre` gives `post` with the signal `r`.
pub open spec fn step_rel<S: Stack>(pre: Machine<S>, post: Machine<S>, r: Return) -> bool {
    if pre.program_counter >= pre.code@.len() {
        r == Return::Stop && post == pre
    } else {
        opcode_post(pre.code@[pre.program_counter as int], pre.advanced(), post, r)
    }
}

/// `post` follows from `pre` by `n` steps that each signalled `Continue`.
pub open spec fn continues<S: Stack>(pre: Machine<S>, post: Machine<S>, n: nat) -> bool
    decreases n,
{
    if n == 0 {
        post == pre
    } else {
        exists|mid: Machine<S>|
            continues(pre, mid, (n - 1) as nat) && #[trigger] step_rel(mid, post, Return::Continue)
    }
}

impl<S: Stack> Machine<S> {
    pub open spec fn wf(&self) -> bool {
        &&& self.program_counter <= self.code@.len()
        &&& self.stack.contents().len() <= STACK_LIMIT
    }

    /// A fresh machine at the start of the code, with an empty stack and no predicates.
    pub fn new(code: Vec<u8>) -> (r: Self)
        ensures
            r.wf(),
            r.program_counter == 0,
            r.code@ == code@,
            r.stack.contents() == Seq::<crate::sym::SymWord>::empty(),
            r.predicates@ == Seq::<Predicate>::empty(),
    {
        Machine { program_counter: 0, code, stack: S::empty(), predicates: Vec::new() }
    }

    /// The machine with its counter moved past the current opcode byte.
    pub open spec fn advanced(self) -> Self {
        Machine {
            program_counter: (self.program_counter + 1) as usize,
            code: self.code,
            stack: self.stack,
            predicates: self.predicates,
        }
    }

    /// Fetches the opcode at the counter, moves past it and runs its routine;
    /// at the end of the code it halts with `Stop` and changes nothing.
    pub fn step(&mut self) -> (r: Return)
        requires
            old(self).wf(),
        ensures
            frame(*old(self), *final(self)),
            r == Return::Continue ==> final(self).program_counter > old(self).program_counter,
            step_rel(*old(self), *final(self), r),
    {
        if self.program_counter >= self.code.len() {
            return Return::Stop;
        }
        let opcode = self.code[self.program_counter];
        self.program_counter = self.program_counter + 1;
        instructions::eval(opcode, self)
    }

    /// Steps until an instruction signals anything but `Continue`; reading past
    /// the end of the code halts with `Stop`.
    pub fn run(&mut self) -> (r: Return)
        requires
            old(self).wf(),
        ensures
            final(self).wf(),
            r != Return::Continue,
            final(self).code@ == old(self).code@,
            old(self).predicates@.is_prefix_of(final(self).predicates@),
            exists|n: nat, last: Machine<S>|
                #[trigger] continues(*old(self), last, n) && step_rel(last, *final(self), r),
            old(self).program_counter == old(self).code@.len() ==> r == Return::Stop
                && final(self).stack.contents() == old(self).stack.contents()
                && final(self).predicates@ == old(self).predicates@,
    {
        let mut ret = Return::Continue;
        let ghost mut n: nat = 0;
        let ghost mut last = *self;
        while ret == Return::Continue
            invariant
                self.wf(),
                self.code@ == old(self).code@,
                old(self).predicates@.is_prefix_of(self.predicates@),
                ret == Return::Continue ==> continues(*old(self), *self, n),
                ret != Return::Continue ==> continues(*old(self), last, n) && step_rel(last, *self, ret),
                old(self).program_counter == old(self).code@.len() ==> *self == *old(self) && (ret
                    == Return::Continue || ret == Return::Stop),
            decreases self.code@.len() - self.program_counter, if ret == Return::Continue { 1int } else { 0int },
        {
            let ghost prev = *self;
            ret = self.step();
            proof {
                if ret == Return::Continue {
                    assert(continues(*old(self), prev, n) && step_rel(prev, *self, Return::Continue));
                    n = n + 1;
                } else {
                    last = prev;
                }
            }
        }
        ret
    }
}

} // verus!
