//! Counting bytes: the mathematical model of a histogram, the counter widths
//! a histogram can be kept in, and the fold of a buffer into a histogram.
use vstd::prelude::*;

verus! {

/// How many times the byte `b` occurs in `s`.
pub open spec fn occurrences(s: Seq<u8>, b: u8) -> nat
    decreases s.len(),
{
    if s.len() == 0 {
        0
    } else {
        occurrences(s.drop_last(), b) + if s.last() == b { 1nat } else { 0nat }
    }
}

/// The exact byte-frequency table of `s`: bucket `i` counts the bytes equal to `i`.
pub open spec fn tally(s: Seq<u8>) -> Seq<nat> {
    Seq::new(256, |i: int| occurrences(s, i as u8))
}

/// A byte cannot occur more often than the sequence is long.
pub proof fn lemma_occurrences_bound(s: Seq<u8>, b: u8)
    ensures
        occurrences(s, b) <= s.len(),
    decreases s.len(),
{
    if s.len() > 0 {
        lemma_occurrences_bound(s.drop_last(), b);
    }
}

/// Sum of the first `n` entries of `t`.
pub open spec fn sum_prefix(t: Seq<nat>, n: int) -> nat
    decreases n,
{
    if n <= 0 {
        0
    } else {
        sum_prefix(t, n - 1) + t[n - 1]
    }
}

/// Sum of all entries of `t`.
pub open spec fn total(t: Seq<nat>) -> nat {
    sum_prefix(t, t.len() as int)
}

/// An unsigned counter of fixed width. Incrementing wraps around silently at
/// `modulus()`: choosing a width wide enough for the counts involved is up to
/// the caller.
pub trait Counter: Copy + Sized {
    /// The number the counter holds.
    spec fn value(&self) -> nat;

    /// One more than the largest value the counter can hold.
    spec fn modulus() -> nat;

    proof fn lemma_in_bounds(c: Self)
        ensures
            c.value() < Self::modulus(),
            Self::modulus() > 1,
    ;

    fn zero() -> (r: Self)
        ensures
            r.value() == 0,
    ;

    /// Adds one, wrapping around to zero past the largest value.
    fn bump(self) -> (r: Self)
        ensures
            r.value() == (self.value() + 1) % Self::modulus(),
    ;
}

impl Counter for u8 {
    open spec fn value(&self) -> nat {
        *self as nat
    }

    open spec fn modulus() -> nat {
        0x100
    }

    proof fn lemma_in_bounds(c: Self) {
    }

    fn zero() -> (r: Self) {
        0
    }

    fn bump(self) -> (r: Self) {
        if self == u8::MAX {
            0
        } else {
            self + 1
        }
    }
}

impl Counter for u16 {
    open spec fn value(&self) -> nat {
        *self as nat
    }

    open spec fn modulus() -> nat {
        0x1_0000
    }

    proof fn lemma_in_bounds(c: Self) {
    }

    fn zero() -> (r: Self) {
        0
    }

    fn bump(self) -> (r: Self) {
        if self == u16::MAX {
            0
        } else {
            self + 1
        }
    }
}

impl Counter for u32 {
    open spec fn value(&self) -> nat {
        *self as nat
    }

    open spec fn modulus() -> nat {
        0x1_0000_0000
    }

    proof fn lemma_in_bounds(c: Self) {
    }

    fn zero() -> (r: Self) {
        0
    }

    fn bump(self) -> (r: Self) {
        if self == u32::MAX {
            0
        } else {
            self + 1
        }
    }
}

impl Counter for u64 {
    open spec fn value(&self) -> nat {
        *self as nat
    }

    open spec fn modulus() -> nat {
        0x1_0000_0000_0000_0000
    }

    proof fn lemma_in_bounds(c: Self) {
    }

    fn zero() -> (r: Self) {
        0
    }

    fn bump(self) -> (r: Self) {
        if self == u64::MAX {
            0
        } else {
            self + 1
        }
    }
}

/// `h` holds the byte-frequency table `t`, each count reduced modulo the
/// counter's width.
pub open spec fn holds<C: Counter>(h: [C; 256], t: Seq<nat>) -> bool {
    &&& t.len() == 256
    &&& forall|i: int| 0 <= i < 256 ==> #[trigger] h@[i].value() == t[i] % C::modulus()
}

/// Folds every byte of `buf` into a fresh 256-bucket histogram: bucket `b`
/// ends up holding the number of occurrences of `b`, wrapped at the
/// counter's width.
pub fn fold_bytes<C: Counter>(buf: &[u8]) -> (h: [C; 256])
    ensures
        holds(h, tally(buf@)),
{
    let z: C = C::zero();
    let mut h: [C; 256] = [z; 256];
    proof {
        C::lemma_in_bounds(z);
        assert(buf@.take(0) =~= Seq::<u8>::empty());
        assert forall|i: int| 0 <= i < 256 implies #[trigger] h@[i].value() == tally(
            buf@.take(0),
        )[i] % C::modulus() by {
            vstd::arithmetic::div_mod::lemma_small_mod(0, C::modulus());
        }
    }
    let mut k: usize = 0;
    while k < buf.len()
        invariant
            k <= buf@.len(),
            holds(h, tally(buf@.take(k as int))),
        decreases buf@.len() - k,
    {
        let b: u8 = buf[k];
        let slot: usize = b as usize;
        let bumped: C = h[slot].bump();
        h[slot] = bumped;
        proof {
            C::lemma_in_bounds(bumped);
            let before = buf@.take(k as int);
            let after = buf@.take(k as int + 1);
            assert(after.drop_last() =~= before);
            assert forall|i: int| 0 <= i < 256 implies #[trigger] h@[i].value() == tally(after)[i]
                % C::modulus() by {
                if i == slot as int {
                    vstd::arithmetic::div_mod::lemma_add_mod_noop(
                        occurrences(before, i as u8) as int,
                        1,
                        C::modulus() as int,
                    );
                    vstd::arithmetic::div_mod::lemma_small_mod(1, C::modulus());
                }
            }
        }
        k = k + 1;
    }
    assert(buf@.take(buf@.len() as int) =~= buf@);
    h
}

} // verus!
