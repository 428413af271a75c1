use vstd::prelude::*;
use crate::word::{Word, word_modulus, wrapping_sum};

verus! {

/// A value expression over the symbolic input bytes.
#[derive(Debug)]
pub enum IR {
    /// The sum of two words, wrapping modulo the word's range.
    ADD(Box<IR>, Box<IR>),
    /// A constant word.
    Base(Word),
    /// The input byte at the given offset, as a word.
    Input(usize),
}

/// A path predicate: a value expression compared against zero.
#[derive(Debug)]
pub enum Predicate {
    EqZero(IR),
    NotEqZero(IR),
}

/// What a stack slot holds: a known word or an expression over the inputs.
#[derive(Debug)]
pub enum SymWord {
    Sym(IR),
    Concrete(Word),
}

/// The byte at `i` of an input, zero past its end.
pub open spec fn input_byte(input: Seq<u8>, i: int) -> int {
    if 0 <= i < input.len() {
        input[i] as int
    } else {
        0
    }
}

impl IR {
    /// The integer the expression denotes under a given input.
    pub open spec fn eval(self, input: Seq<u8>) -> int
        decreases self,
    {
        match self {
            IR::ADD(a, b) => wrapping_sum(a.eval(input), b.eval(input)),
            IR::Base(w) => w.val(),
            IR::Input(i) => input_byte(input, i as int),
        }
    }

    pub proof fn lemma_eval_bounds(self, input: Seq<u8>)
        ensures
            0 <= self.eval(input) < word_modulus(),
        decreases self,
    {
        match self {
            IR::ADD(a, b) => {
                a.lemma_eval_bounds(input);
                b.lemma_eval_bounds(input);
            },
            IR::Base(w) => { w.lemma_val_bounds(); },
            IR::Input(i) => {},
        }
    }

    /// Computes the expression's word under a concrete input.
    pub fn evaluate(&self, input: &Vec<u8>) -> (r: Word)
        ensures
            r.val() == self.eval(input@),
        decreases self,
    {
        match self {
            IR::ADD(a, b) => {
                let x = a.evaluate(input);
                let y = b.evaluate(input);
                x.wrapping_add(y)
            },
            IR::Base(w) => *w,
            IR::Input(i) => {
                if *i < input.len() {
                    Word::from_u64(input[*i] as u64)
                } else {
                    Word::zero()
                }
            },
        }
    }
}

impl Predicate {
    /// Whether the predicate holds under a given input.
    pub open spec fn holds(self, input: Seq<u8>) -> bool {
        match self {
            Predicate::EqZero(e) => e.eval(input) == 0,
            Predicate::NotEqZero(e) => e.eval(input) != 0,
        }
    }

    pub fn check(&self, input: &Vec<u8>) -> (r: bool)
        ensures
            r == self.holds(input@),
    {
        match self {
            Predicate::EqZero(e) => e.evaluate(input).is_zero(),
            Predicate::NotEqZero(e) => !e.evaluate(input).is_zero(),
        }
    }
}

/// Whether every predicate of a path holds under a given input.
pub open spec fn all_hold(preds: Seq<Predicate>, input: Seq<u8>) -> bool {
    forall|k: int| 0 <= k < preds.len() ==> #[trigger] preds[k].holds(input)
}

/// Checks a candidate witness against a path's predicates.
pub fn check_witness(preds: &Vec<Predicate>, input: &Vec<u8>) -> (r: bool)
    ensures
        r == all_hold(preds@, input@),
{
    let mut k: usize = 0;
    while k < preds.len()
        invariant
            k <= preds@.len(),
            forall|j: int| 0 <= j < k ==> #[trigger] preds@[j].holds(input@),
        decreases preds@.len() - k,
    {
        if !preds[k].check(input) {
            return false;
        }
        k += 1;
    }
    true
}

/// A path forcing input byte zero to be zero is met exactly by the inputs whose
/// first byte is zero; the one-byte input `[0]` is such a witness.
pub proof fn lemma_eq_zero_witness(input: Seq<u8>)
    requires
        input.len() == 1,
    ensures
        all_hold(seq![Predicate::EqZero(IR::Input(0))], input) <==> input[0] == 0,
        all_hold(seq![Predicate::EqZero(IR::Input(0))], seq![0u8]),
{
    let p = seq![Predicate::EqZero(IR::Input(0))];
    assert(p[0] == Predicate::EqZero(IR::Input(0)));
    assert(IR::Input(0).eval(input) == input[0] as int);
    if p[0].holds(input) {
        assert forall|k: int| 0 <= k < p.len() implies #[trigger] p[k].holds(input) by {
            assert(k == 0);
        }
    }
    assert(seq![0u8][0] == 0u8);
}

/// A path forcing input byte zero to be nonzero is met exactly by the inputs
/// whose first byte is nonzero; `[1]` is such a witness.
pub proof fn lemma_not_eq_zero_witness(input: Seq<u8>)
    requires
        input.len() == 1,
    ensures
        all_hold(seq![Predicate::NotEqZero(IR::Input(0))], input) <==> input[0] != 0,
        all_hold(seq![Predicate::NotEqZero(IR::Input(0))], seq![1u8]),
{
    let p = seq![Predicate::NotEqZero(IR::Input(0))];
    assert(p[0] == Predicate::NotEqZero(IR::Input(0)));
    assert(IR::Input(0).eval(input) == input[0] as int);
    if p[0].holds(input) {
        assert forall|k: int| 0 <= k < p.len() implies #[trigger] p[k].holds(input) by {
            assert(k == 0);
        }
    }
    assert(seq![1u8][0] == 1u8);
}

/// The empty path constrains nothing: every input is a witness.
pub proof fn lemma_empty_path_witness(input: Seq<u8>)
    ensures
        all_hold(Seq::<Predicate>::empty(), input),
{
}

/// A path forcing one input byte to be both zero and nonzero has no witness.
pub proof fn lemma_contradiction_unsat(input: Seq<u8>)
    ensures
        !all_hold(seq![Predicate::EqZero(IR::Input(0)), Predicate::NotEqZero(IR::Input(0))], input),
{
    let p = seq![Predicate::EqZero(IR::Input(0)), Predicate::NotEqZero(IR::Input(0))];
    assert(p[0].holds(input) ==> !p[1].holds(input));
}

impl SymWord {
    /// The value expression for a slot: a known word becomes a constant leaf.
    pub open spec fn as_ir(self) -> IR {
        match self {
            SymWord::Sym(e) => e,
            SymWord::Concrete(w) => IR::Base(w),
        }
    }
}

/// Whether `r` is the folded sum of `a` and `b`: two known words give their
/// wrapping sum; otherwise an `ADD` node over both operands, never evaluated.
pub open spec fn is_folded_add(a: SymWord, b: SymWord, r: SymWord) -> bool {
    match (a, b) {
        (SymWord::Concrete(x), SymWord::Concrete(y)) => r is Concrete
            && r->Concrete_0.val() == wrapping_sum(x.val(), y.val()),
        _ => r == SymWord::Sym(IR::ADD(Box::new(a.as_ir()), Box::new(b.as_ir()))),
    }
}

/// Folds an addition of two stack values.
pub fn fold_add(a: SymWord, b: SymWord) -> (r: SymWord)
    ensures
        is_folded_add(a, b, r),
        a is Concrete && b is Concrete ==> r is Concrete && r->Concrete_0.val() == wrapping_sum(
            a->Concrete_0.val(),
            b->Concrete_0.val(),
        ),
        a is Sym || b is Sym ==> r == SymWord::Sym(
            IR::ADD(Box::new(a.as_ir()), Box::new(b.as_ir())),
        ),
{
    match (a, b) {
        (SymWord::Sym(x), SymWord::Sym(y)) => SymWord::Sym(IR::ADD(Box::new(x), Box::new(y))),
        (SymWord::Sym(x), SymWord::Concrete(y)) => SymWord::Sym(
            IR::ADD(Box::new(x), Box::new(IR::Base(y))),
        ),
        (SymWord::Concrete(x), SymWord::Sym(y)) => SymWord::Sym(
            IR::ADD(Box::new(IR::Base(x)), Box::new(y)),
        ),
        (SymWord::Concrete(x), SymWord::Concrete(y)) => SymWord::Concrete(x.wrapping_add(y)),
    }
}

impl From<IR> for SymWord {
    fn from(x: IR) -> (r: SymWord) {
        SymWord::Sym(x)
    }
}

impl vstd::std_specs::convert::FromSpecImpl<IR> for SymWord {
    open spec fn obeys_from_spec() -> bool {
        true
    }

    open spec fn from_spec(x: IR) -> SymWord {
        SymWord::Sym(x)
    }
}

impl From<Word> for SymWord {
    fn from(x: Word) -> (r: SymWord) {
        SymWord::Concrete(x)
    }
}

impl vstd::std_specs::convert::FromSpecImpl<Word> for SymWord {
    open spec fn obeys_from_spec() -> bool {
        true
    }

    open spec fn from_spec(x: Word) -> SymWord {
        SymWord::Concrete(x)
    }
}

impl From<Word> for IR {
    fn from(x: Word) -> (r: IR) {
        IR::Base(x)
    }
}

impl vstd::std_specs::convert::FromSpecImpl<Word> for IR {
    open spec fn obeys_from_spec() -> bool {
        true
    }

    open spec fn from_spec(x: Word) -> IR {
        IR::Base(x)
    }
}

} // verus!
