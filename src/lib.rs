//! A stack machine over 256-bit words that runs bytecode on known words and
//! on symbolic expressions alike, recording the path predicates a symbolic
//! run passes, together with the gas schedule of its opcodes.
pub mod gas;
pub mod instructions;
pub mod machine;
pub mod signal;
pub mod stack;
pub mod sym;
pub mod word;

pub use instructions::add;
pub use machine::Machine;
pub use signal::Return;
pub use stack::{ConcreteStack, Stack, VecBackedSymStack, STACK_LIMIT};
pub use sym::{check_witness, fold_add, Predicate, SymWord, IR};
pub use word::{RetUint, Word};
