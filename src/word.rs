use vstd::prelude::*;
use primitive_types::U256;

verus! {

/// The radix of one limb of a word.
pub open spec fn limb_base() -> int {
    0x1_0000_0000_0000_0000
}

/// The number of distinct words: arithmetic on words is modulo this value.
pub open spec fn word_modulus() -> int {
    limb_base() * limb_base() * limb_base() * limb_base()
}

/// The sum of two words' values, wrapped once past the word's range: for
/// values in range this is the sum modulo `word_modulus()`.
pub open spec fn wrapping_sum(a: int, b: int) -> int {
    if a + b >= word_modulus() {
        a + b - word_modulus()
    } else {
        a + b
    }
}

/// A 256-bit unsigned word, held as four 64-bit limbs, least significant first.
#[derive(Clone, Copy, Debug, PartialEq, Eq, Structural)]
pub struct Word {
    pub l0: u64,
    pub l1: u64,
    pub l2: u64,
    pub l3: u64,
}

/// A word as the four 64-bit limbs a native wide-arithmetic routine hands
/// back, in the order of `Word`'s own limbs.
#[derive(Clone, Copy, Debug, PartialEq, Eq, Structural)]
pub struct RetUint {
    pub n1: u64,
    pub n2: u64,
    pub n3: u64,
    pub n4: u64,
}

impl From<RetUint> for Word {
    fn from(x: RetUint) -> (r: Word) {
        Word { l0: x.n1, l1: x.n2, l2: x.n3, l3: x.n4 }
    }
}

impl vstd::std_specs::convert::FromSpecImpl<RetUint> for Word {
    open spec fn obeys_from_spec() -> bool {
        true
    }

    open spec fn from_spec(x: RetUint) -> Word {
        Word { l0: x.n1, l1: x.n2, l2: x.n3, l3: x.n4 }
    }
}

impl Word {
    /// The integer that the word denotes.
    pub open spec fn val(self) -> int {
        self.l0 + limb_base() * (self.l1 + limb_base() * (self.l2 + limb_base() * self.l3))
    }

    pub proof fn lemma_val_bounds(self)
        ensures
            0 <= self.val() < word_modulus(),
    {
        let b = limb_base();
        assert(0 <= self.l2 + b * self.l3 < b * b) by (nonlinear_arith)
            requires 0 <= self.l2 < b, 0 <= self.l3 < b, b == limb_base();
        assert(0 <= self.l1 + b * (self.l2 + b * self.l3) < b * b * b) by (nonlinear_arith)
            requires 0 <= self.l1 < b, 0 <= self.l2 + b * self.l3 < b * b, b == limb_base();
        assert(0 <= self.val() < b * b * b * b) by (nonlinear_arith)
            requires
                0 <= self.l0 < b,
                0 <= self.l1 + b * (self.l2 + b * self.l3) < b * b * b,
                self.val() == self.l0 + b * (self.l1 + b * (self.l2 + b * self.l3)),
                b == limb_base();
    }

    pub fn from_u64(n: u64) -> (r: Word)
        ensures
            r.val() == n,
    {
        Word { l0: n, l1: 0, l2: 0, l3: 0 }
    }

    /// The word for a truth value: one or zero.
    pub open spec fn of_bool(b: bool) -> Word {
        Word { l0: if b { 1 } else { 0 }, l1: 0, l2: 0, l3: 0 }
    }

    pub fn from_bool(b: bool) -> (r: Word)
        ensures
            r == Word::of_bool(b),
            r.val() == (if b { 1int } else { 0int }),
    {
        Word { l0: if b { 1 } else { 0 }, l1: 0, l2: 0, l3: 0 }
    }

    pub fn zero() -> (r: Word)
        ensures
            r.val() == 0,
    {
        Word::from_u64(0)
    }

    pub fn one() -> (r: Word)
        ensures
            r.val() == 1,
    {
        Word::from_u64(1)
    }

    pub fn is_zero(&self) -> (r: bool)
        ensures
            r == (self.val() == 0),
    {
        let ghost b = limb_base();
        assert(self.val() == 0 ==> self.l0 == 0 && self.l1 == 0 && self.l2 == 0 && self.l3 == 0)
            by (nonlinear_arith)
            requires
                b == limb_base(),
                self.val() == self.l0 + b * (self.l1 + b * (self.l2 + b * self.l3)),
                self.l0 >= 0, self.l1 >= 0, self.l2 >= 0, self.l3 >= 0, b > 0;
        self.l0 == 0 && self.l1 == 0 && self.l2 == 0 && self.l3 == 0
    }

    /// The value when it fits in 64 bits.
    pub fn low_u64(&self) -> (r: Option<u64>)
        ensures
            r == (if self.val() < limb_base() { Some(self.l0) } else { None::<u64> }),
            r is Some ==> r->0 == self.val(),
    {
        let ghost b = limb_base();
        assert((self.val() < b) == (self.l1 == 0 && self.l2 == 0 && self.l3 == 0))
            by (nonlinear_arith)
            requires
                b == limb_base(),
                self.val() == self.l0 + b * (self.l1 + b * (self.l2 + b * self.l3)),
                0 <= self.l0 < b, self.l1 >= 0, self.l2 >= 0, self.l3 >= 0;
        if self.l1 == 0 && self.l2 == 0 && self.l3 == 0 {
            Some(self.l0)
        } else {
            None
        }
    }

    /// Addition modulo the word's range: overflow wraps, it is never an error.
    pub fn wrapping_add(self, other: Word) -> (r: Word)
        ensures
            r.val() == wrapping_sum(self.val(), other.val()),
    {
        let r = overflowing_add_word(self, other);
        proof {
            self.lemma_val_bounds();
            other.lemma_val_bounds();
            let (x, y, m) = (self.val(), other.val(), word_modulus());
            if x + y >= m {
                vstd::arithmetic::div_mod::lemma_fundamental_div_mod(x + y, m);
                assert((x + y) / m == 1) by (nonlinear_arith)
                    requires m <= x + y < 2 * m, m > 0, (x + y) == m * ((x + y) / m) + (x + y) % m, 0 <= (x + y) % m < m;
            } else {
                vstd::arithmetic::div_mod::lemma_small_mod((x + y) as nat, m as nat);
            }
        }
        r
    }
}

impl Word {
    /// The sum, or `None` where it leaves the word's range.
    pub fn checked_add(self, other: Word) -> (r: Option<Word>)
        ensures
            r is None <==> self.val() + other.val() >= word_modulus(),
            r is Some ==> r->0.val() == self.val() + other.val(),
    {
        checked_add_word(self, other)
    }

    /// The product, or `None` where it leaves the word's range.
    pub fn checked_mul(self, other: Word) -> (r: Option<Word>)
        ensures
            r is None <==> self.val() * other.val() >= word_modulus(),
            r is Some ==> r->0.val() == self.val() * other.val(),
    {
        checked_mul_word(self, other)
    }

    /// The quotient and the remainder of a division by a nonzero word.
    pub fn div_mod(self, other: Word) -> (r: (Word, Word))
        requires
            other.val() != 0,
        ensures
            r.0.val() == self.val() / other.val(),
            r.1.val() == self.val() % other.val(),
    {
        div_mod_word(self, other)
    }
}

/// 256 to the power `n`.
pub open spec fn pow256(n: nat) -> int
    decreases n,
{
    if n == 0 {
        1
    } else {
        256 * pow256((n - 1) as nat)
    }
}

pub proof fn lemma_pow256_full()
    ensures
        pow256(32) == word_modulus(),
{
    reveal_with_fuel(pow256, 33);
}

/// Whether `n` bytes are exactly what `v` needs: `v < 256^n`, and fewer would not do.
pub open spec fn fits_bytes(v: int, n: nat) -> bool {
    v < pow256(n) && (n == 0 || pow256((n - 1) as nat) <= v)
}

impl Word {
    /// The number of bytes the value needs: the least `n` with `val < 256^n`.
    pub open spec fn byte_count(self) -> nat {
        choose|n: nat| #[trigger] fits_bytes(self.val(), n)
    }

    /// Counts the bytes of the value by dividing it down to zero.
    pub fn byte_len(&self) -> (r: u64)
        ensures
            r <= 32,
            r == self.byte_count(),
    {
        let ghost v = self.val();
        let mut x = *self;
        let mut n: u64 = 0;
        proof {
            self.lemma_val_bounds();
            lemma_pow256_full();
        }
        while !x.is_zero()
            invariant
                0 <= v < word_modulus() == pow256(32),
                n <= 32,
                x.val() == v / pow256(n as nat),
                n > 0 ==> pow256((n - 1) as nat) <= v,
            decreases x.val(),
        {
            proof {
                lemma_pow256_positive(n as nat);
                vstd::arithmetic::div_mod::lemma_fundamental_div_mod(v, pow256(n as nat));
                vstd::arithmetic::div_mod::lemma_mod_bound(v, pow256(n as nat));
                assert(pow256(n as nat) * (v / pow256(n as nat)) >= pow256(n as nat)) by (nonlinear_arith)
                    requires v / pow256(n as nat) >= 1, pow256(n as nat) > 0;
                vstd::arithmetic::div_mod::lemma_div_denominator(v, pow256(n as nat), 256);
                x.lemma_val_bounds();
            }
            let (q, _) = x.div_mod(Word::from_u64(256));
            x = q;
            n = n + 1;
            assert(pow256(n as nat) == pow256((n - 1) as nat) * 256);
        }
        proof {
            lemma_pow256_positive(n as nat);
            vstd::arithmetic::div_mod::lemma_fundamental_div_mod(v, pow256(n as nat));
            vstd::arithmetic::div_mod::lemma_mod_bound(v, pow256(n as nat));
            let c = self.byte_count();
            assert(fits_bytes(v, n as nat));
            lemma_pow256_unique(v, c, n as nat);
        }
        n
    }
}

pub proof fn lemma_pow256_positive(n: nat)
    ensures
        pow256(n) > 0,
    decreases n,
{
    if n > 0 {
        lemma_pow256_positive((n - 1) as nat);
    }
}

pub proof fn lemma_pow256_monotonic(a: nat, b: nat)
    requires
        a <= b,
    ensures
        pow256(a) <= pow256(b),
    decreases b,
{
    if a < b {
        lemma_pow256_monotonic(a, (b - 1) as nat);
        lemma_pow256_positive((b - 1) as nat);
    }
}

/// At most one byte count fits a value.
pub proof fn lemma_pow256_unique(v: int, a: nat, b: nat)
    requires
        v < pow256(a),
        a == 0 || pow256((a - 1) as nat) <= v,
        v < pow256(b),
        b == 0 || pow256((b - 1) as nat) <= v,
    ensures
        a == b,
{
    if a < b {
        lemma_pow256_monotonic(a, (b - 1) as nat);
    } else if b < a {
        lemma_pow256_monotonic(b, (a - 1) as nat);
    }
}

/// Relies on primitive_types::U256::checked_add: `None` exactly where the
/// sum overflows 2^256, else the sum.
#[verifier::external_body]
fn checked_add_word(a: Word, b: Word) -> (r: Option<Word>)
    ensures
        r is None <==> a.val() + b.val() >= word_modulus(),
        r is Some ==> r->0.val() == a.val() + b.val(),
{
    U256([a.l0, a.l1, a.l2, a.l3]).checked_add(U256([b.l0, b.l1, b.l2, b.l3])).map(
        |s| Word { l0: s.0[0], l1: s.0[1], l2: s.0[2], l3: s.0[3] },
    )
}

/// Relies on primitive_types::U256::checked_mul: `None` exactly where the
/// product overflows 2^256, else the product.
#[verifier::external_body]
fn checked_mul_word(a: Word, b: Word) -> (r: Option<Word>)
    ensures
        r is None <==> a.val() * b.val() >= word_modulus(),
        r is Some ==> r->0.val() == a.val() * b.val(),
{
    U256([a.l0, a.l1, a.l2, a.l3]).checked_mul(U256([b.l0, b.l1, b.l2, b.l3])).map(
        |s| Word { l0: s.0[0], l1: s.0[1], l2: s.0[2], l3: s.0[3] },
    )
}

/// Relies on primitive_types::U256::div_mod: the quotient and the remainder;
/// it panics on a zero divisor, which `requires` leaves out.
#[verifier::external_body]
fn div_mod_word(a: Word, b: Word) -> (r: (Word, Word))
    requires
        b.val() != 0,
    ensures
        r.0.val() == a.val() / b.val(),
        r.1.val() == a.val() % b.val(),
{
    let (q, m) = U256([a.l0, a.l1, a.l2, a.l3]).div_mod(U256([b.l0, b.l1, b.l2, b.l3]));
    (Word { l0: q.0[0], l1: q.0[1], l2: q.0[2], l3: q.0[3] }, Word { l0: m.0[0], l1: m.0[1], l2: m.0[2], l3: m.0[3] })
}

/// Relies on primitive_types::U256::overflowing_add: the first component is the
/// sum modulo 2^256. The limbs are U256's own little-endian words.
#[verifier::external_body]
fn overflowing_add_word(a: Word, b: Word) -> (r: Word)
    ensures
        r.val() == (a.val() + b.val()) % word_modulus(),
{
    let (s, _) = U256([a.l0, a.l1, a.l2, a.l3]).overflowing_add(U256([b.l0, b.l1, b.l2, b.l3]));
    Word { l0: s.0[0], l1: s.0[1], l2: s.0[2], l3: s.0[3] }
}

} // verus!
