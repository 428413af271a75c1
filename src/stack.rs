use vstd::prelude::*;
use crate::signal::Return;
use crate::sym::SymWord;
use crate::word::Word;

verus! {

/// The most slots a stack holds.
pub const STACK_LIMIT: usize = 1024;

/// A bounded last-in-first-out store of stack values. The machine and every
/// instruction are written against this interface alone.
pub trait Stack: Sized {
    /// The slots, bottom first.
    spec fn contents(&self) -> Seq<SymWord>;

    /// Whether this kind of stack can hold the value.
    spec fn accepts(v: SymWord) -> bool;

    /// Every stack holds known words.
    proof fn lemma_accepts_concrete(w: Word)
        ensures
            Self::accepts(SymWord::Concrete(w)),
    ;

    fn empty() -> (r: Self)
        ensures
            r.contents() == Seq::<SymWord>::empty(),
    ;

    fn len(&self) -> (r: usize)
        ensures
            r == self.contents().len(),
    ;

    fn pop(&mut self) -> (r: Result<SymWord, Return>)
        ensures
            old(self).contents().len() == 0 ==> r == Err::<SymWord, Return>(Return::StackUnderflow)
                && final(self).contents() == old(self).contents(),
            old(self).contents().len() > 0 ==> r == Ok::<SymWord, Return>(old(self).contents().last())
                && final(self).contents() == old(self).contents().drop_last(),
    ;

    fn push(&mut self, val: SymWord) -> (r: Result<(), Return>)
        ensures
            old(self).contents().len() >= STACK_LIMIT ==> r == Err::<(), Return>(Return::StackOverflow)
                && final(self).contents() == old(self).contents(),
            old(self).contents().len() < STACK_LIMIT && !Self::accepts(val) ==> r == Err::<(), Return>(
                Return::NotConcrete,
            ) && final(self).contents() == old(self).contents(),
            old(self).contents().len() < STACK_LIMIT && Self::accepts(val) ==> r == Ok::<(), Return>(())
                && final(self).contents() == old(self).contents().push(val),
    ;
}

/// A stack that holds known words and symbolic expressions alike.
pub struct VecBackedSymStack {
    data: Vec<SymWord>,
}

impl VecBackedSymStack {
    /// An empty stack, with room for the full limit reserved up front.
    pub fn new() -> (r: Self)
        ensures
            r.contents() == Seq::<SymWord>::empty(),
    {
        VecBackedSymStack { data: Vec::with_capacity(STACK_LIMIT) }
    }
}

impl Stack for VecBackedSymStack {
    closed spec fn contents(&self) -> Seq<SymWord> {
        self.data@
    }

    open spec fn accepts(v: SymWord) -> bool {
        true
    }

    proof fn lemma_accepts_concrete(w: Word) {
    }

    fn empty() -> (r: Self) {
        VecBackedSymStack::new()
    }

    fn len(&self) -> (r: usize) {
        self.data.len()
    }

    fn pop(&mut self) -> (r: Result<SymWord, Return>) {
        match self.data.pop() {
            Some(v) => Ok(v),
            None => Err(Return::StackUnderflow),
        }
    }

    fn push(&mut self, val: SymWord) -> (r: Result<(), Return>) {
        if self.data.len() >= STACK_LIMIT {
            return Err(Return::StackOverflow);
        }
        self.data.push(val);
        Ok(())
    }
}

/// A stack that holds known words only, for plain execution; it turns away
/// symbolic values.
pub struct ConcreteStack {
    data: Vec<Word>,
}

impl ConcreteStack {
    pub fn new() -> (r: Self)
        ensures
            r.contents() == Seq::<SymWord>::empty(),
    {
        ConcreteStack { data: Vec::with_capacity(STACK_LIMIT) }
    }

    /// The words, bottom first.
    pub fn words(&self) -> (r: &Vec<Word>)
        ensures
            r@.map_values(|w: Word| SymWord::Concrete(w)) == self.contents(),
    {
        &self.data
    }
}

impl Stack for ConcreteStack {
    closed spec fn contents(&self) -> Seq<SymWord> {
        self.data@.map_values(|w: Word| SymWord::Concrete(w))
    }

    open spec fn accepts(v: SymWord) -> bool {
        v is Concrete
    }

    proof fn lemma_accepts_concrete(w: Word) {
    }

    fn empty() -> (r: Self) {
        let r = ConcreteStack::new();
        assert(r.contents() =~= Seq::<SymWord>::empty());
        r
    }

    fn len(&self) -> (r: usize) {
        self.data.len()
    }

    fn pop(&mut self) -> (r: Result<SymWord, Return>) {
        match self.data.pop() {
            Some(w) => {
                assert(final(self).contents() =~= old(self).contents().drop_last());
                Ok(SymWord::Concrete(w))
            },
            None => Err(Return::StackUnderflow),
        }
    }

    fn push(&mut self, val: SymWord) -> (r: Result<(), Return>) {
        if self.data.len() >= STACK_LIMIT {
            return Err(Return::StackOverflow);
        }
        match val {
            SymWord::Concrete(w) => {
                self.data.push(w);
                assert(self.contents() =~= old(self).contents().push(val));
                Ok(())
            },
            SymWord::Sym(_) => Err(Return::NotConcrete),
        }
    }
}

} // verus!
