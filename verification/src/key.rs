//! Totally ordered keys for the ordered collections of the store.
//!
//! Integers are ordered by value, text by the Unicode scalar values of its
//! characters (which is also the order of its UTF-8 bytes), and pairs
//! lexicographically, first component first.

use vstd::prelude::*;

verus! {

/// How one key stands to another in the order of its type.
#[derive(Clone, Copy, Debug, PartialEq, Eq, Structural)]
pub enum Rel {
    Before,
    Same,
    After,
}

/// A key type with a strict order on its views.
pub trait Key: View + Sized {
    /// The strict order: `a` comes before `b`.
    spec fn before(a: Self::V, b: Self::V) -> bool;

    /// No key comes before itself.
    proof fn before_irreflexive(a: Self::V)
        ensures
            !Self::before(a, a),
    ;

    /// What comes before a key comes before everything after it.
    proof fn before_transitive(a: Self::V, b: Self::V, c: Self::V)
        requires
            Self::before(a, b),
            Self::before(b, c),
        ensures
            Self::before(a, c),
    ;

    /// Compares two keys; exactly one of the three relations holds.
    fn rel(&self, other: &Self) -> (r: Rel)
        ensures
            r == Rel::Before <==> Self::before(self@, other@),
            r == Rel::Same <==> self@ == other@,
            r == Rel::After <==> Self::before(other@, self@),
    ;

    /// A copy of the key.
    fn dup(&self) -> (r: Self)
        ensures
            r@ == self@,
    ;
}

impl Key for u8 {
    open spec fn before(a: u8, b: u8) -> bool {
        a < b
    }

    proof fn before_irreflexive(a: u8) {
    }

    proof fn before_transitive(a: u8, b: u8, c: u8) {
    }

    fn rel(&self, other: &Self) -> (r: Rel) {
        if *self < *other {
            Rel::Before
        } else if *self == *other {
            Rel::Same
        } else {
            Rel::After
        }
    }

    fn dup(&self) -> (r: Self) {
        *self
    }
}

impl Key for u64 {
    open spec fn before(a: u64, b: u64) -> bool {
        a < b
    }

    proof fn before_irreflexive(a: u64) {
    }

    proof fn before_transitive(a: u64, b: u64, c: u64) {
    }

    fn rel(&self, other: &Self) -> (r: Rel) {
        if *self < *other {
            Rel::Before
        } else if *self == *other {
            Rel::Same
        } else {
            Rel::After
        }
    }

    fn dup(&self) -> (r: Self) {
        *self
    }
}

/// The two texts agree on their first `i` characters.
pub open spec fn agree_until(a: Seq<char>, b: Seq<char>, i: int) -> bool {
    &&& 0 <= i <= a.len()
    &&& i <= b.len()
    &&& forall|j: int| 0 <= j < i ==> a[j] == b[j]
}

/// The texts agree up to position `i`, where `a` ends or has the smaller
/// character.
pub open spec fn text_before_at(a: Seq<char>, b: Seq<char>, i: int) -> bool {
    &&& agree_until(a, b, i)
    &&& i < b.len()
    &&& i < a.len() ==> (a[i] as u32) < (b[i] as u32)
}

/// Lexicographic order of two texts by the scalar values of their characters.
pub open spec fn text_before(a: Seq<char>, b: Seq<char>) -> bool {
    exists|i: int| #[trigger] text_before_at(a, b, i)
}

/// No text comes before itself.
pub proof fn lemma_text_before_irreflexive(a: Seq<char>)
    ensures
        !text_before(a, a),
{
}

/// The order of texts is transitive.
pub proof fn lemma_text_before_transitive(a: Seq<char>, b: Seq<char>, c: Seq<char>)
    requires
        text_before(a, b),
        text_before(b, c),
    ensures
        text_before(a, c),
{
    let i = choose|i: int| #[trigger] text_before_at(a, b, i);
    let j = choose|j: int| #[trigger] text_before_at(b, c, j);
    if i <= j {
        assert(text_before_at(a, c, i));
    } else {
        assert(text_before_at(a, c, j));
    }
}

impl Key for String {
    open spec fn before(a: Seq<char>, b: Seq<char>) -> bool {
        text_before(a, b)
    }

    proof fn before_irreflexive(a: Seq<char>) {
        lemma_text_before_irreflexive(a);
    }

    proof fn before_transitive(a: Seq<char>, b: Seq<char>, c: Seq<char>) {
        lemma_text_before_transitive(a, b, c);
    }

    fn rel(&self, other: &Self) -> (r: Rel) {
        let n = self.as_str().unicode_len();
        let m = other.as_str().unicode_len();
        let mut i: usize = 0;
        while i < n && i < m
            invariant
                n == self@.len(),
                m == other@.len(),
                agree_until(self@, other@, i as int),
            decreases n - i,
        {
            let x = self.as_str().get_char(i);
            let y = other.as_str().get_char(i);
            if (x as u32) < (y as u32) {
                assert(text_before_at(self@, other@, i as int));
                proof {
                    lemma_text_asymmetric(self@, other@);
                }
                return Rel::Before;
            }
            if (y as u32) < (x as u32) {
                assert(text_before_at(other@, self@, i as int));
                proof {
                    lemma_text_asymmetric(other@, self@);
                }
                return Rel::After;
            }
            i = i + 1;
        }
        if n == m {
            assert(self@ =~= other@);
            proof {
                lemma_text_before_irreflexive(self@);
            }
            Rel::Same
        } else if n < m {
            assert(text_before_at(self@, other@, i as int));
            proof {
                lemma_text_asymmetric(self@, other@);
            }
            Rel::Before
        } else {
            assert(text_before_at(other@, self@, i as int));
            proof {
                lemma_text_asymmetric(other@, self@);
            }
            Rel::After
        }
    }

    fn dup(&self) -> (r: Self) {
        self.clone()
    }
}

/// A text that comes before another differs from it and does not come after
/// it.
pub proof fn lemma_text_asymmetric(a: Seq<char>, b: Seq<char>)
    requires
        text_before(a, b),
    ensures
        a != b,
        !text_before(b, a),
{
    lemma_text_before_irreflexive(a);
    if text_before(b, a) {
        lemma_text_before_transitive(a, b, a);
    }
}

impl<A: Key, B: Key> Key for (A, B) {
    open spec fn before(a: (A::V, B::V), b: (A::V, B::V)) -> bool {
        A::before(a.0, b.0) || (a.0 == b.0 && B::before(a.1, b.1))
    }

    proof fn before_irreflexive(a: (A::V, B::V)) {
        A::before_irreflexive(a.0);
        B::before_irreflexive(a.1);
    }

    proof fn before_transitive(a: (A::V, B::V), b: (A::V, B::V), c: (A::V, B::V)) {
        if A::before(a.0, b.0) && A::before(b.0, c.0) {
            A::before_transitive(a.0, b.0, c.0);
        }
        if a.0 == b.0 && b.0 == c.0 && B::before(a.1, b.1) && B::before(b.1, c.1) {
            B::before_transitive(a.1, b.1, c.1);
        }
    }

    fn rel(&self, other: &Self) -> (r: Rel) {
        proof {
            A::before_irreflexive(self.0@);
            B::before_irreflexive(self.1@);
        }
        match self.0.rel(&other.0) {
            Rel::Before => Rel::Before,
            Rel::After => Rel::After,
            Rel::Same => self.1.rel(&other.1),
        }
    }

    fn dup(&self) -> (r: Self) {
        (self.0.dup(), self.1.dup())
    }
}

} // verus!
