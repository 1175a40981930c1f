//! An ordered map kept as two parallel vectors, sorted by key.
//!
//! The map is modelled by the strictly increasing sequence of its keys and the
//! sequence of values that stand at the same positions. Range scans walk the
//! keys in either direction, keep those that a [`Selector`] picks, and stop at
//! a limit.

use vstd::prelude::*;
use crate::key::{Key, Rel};

verus! {

/// An ordered map from keys of type `K` to values of type `V`.
pub struct OrdMap<K: Key, V> {
    pub keys: Vec<K>,
    pub vals: Vec<V>,
}

/// A test on keys that a range scan applies to every key it passes.
pub trait Selector<K: Key> {
    /// The keys that the scan keeps.
    spec fn picks(&self, k: K::V) -> bool;

    fn test(&self, k: &K) -> (r: bool)
        ensures
            r == self.picks(k@),
    ;
}

/// Keeps every key strictly beyond an optional cursor, in scan direction.
pub struct Beyond<K: Key> {
    pub cursor: Option<K>,
    pub ascending: bool,
}

/// Keeps the keys whose first component is `prefix` and whose second
/// component lies strictly beyond an optional cursor, in scan direction.
pub struct Within<A: Key, B: Key> {
    pub prefix: A,
    pub cursor: Option<B>,
    pub ascending: bool,
}

/// Whether `k` lies strictly beyond the cursor when scanning in the given
/// direction; without a cursor every key does.
pub open spec fn beyond<K: Key>(cursor: Option<K::V>, ascending: bool, k: K::V) -> bool {
    match cursor {
        None => true,
        Some(c) => if ascending {
            K::before(c, k)
        } else {
            K::before(k, c)
        },
    }
}

/// The view of an optional key.
pub open spec fn cursor_view<K: Key>(cursor: Option<K>) -> Option<K::V> {
    match cursor {
        None => None,
        Some(c) => Some(c@),
    }
}

/// The test of a scan over all keys beyond a cursor.
pub open spec fn beyond_pred<K: Key>(cursor: Option<K::V>,
    ascending: bool) -> spec_fn(K::V) -> bool {
    |k: K::V| beyond::<K>(cursor, ascending, k)
}

/// The test of a scan over the keys with a given first component, beyond a
/// cursor for the second.
pub open spec fn within_pred<A: Key, B: Key>(
    prefix: A::V,
    cursor: Option<B::V>,
    ascending: bool,
) -> spec_fn((A::V, B::V)) -> bool {
    |k: (A::V, B::V)| k.0 == prefix && beyond::<B>(cursor, ascending, k.1)
}

impl<K: Key> Beyond<K> {
    /// What this selector picks is the test of a scan beyond its cursor.
    pub proof fn lemma_pred(&self)
        ensures
            (|k: K::V| self.picks(k)) == beyond_pred::<K>(
                cursor_view(self.cursor),
                self.ascending,
            ),
    {
        assert((|k: K::V| self.picks(k)) =~= beyond_pred::<K>(
            cursor_view(self.cursor),
            self.ascending,
        ));
    }
}

impl<A: Key, B: Key> Within<A, B> {
    /// What this selector picks is the test of a scan within its prefix.
    pub proof fn lemma_pred(&self)
        ensures
            (|k: (A::V, B::V)| self.picks(k)) == within_pred::<A, B>(
                self.prefix@,
                cursor_view(self.cursor),
                self.ascending,
            ),
    {
        assert((|k: (A::V, B::V)| self.picks(k)) =~= within_pred::<A, B>(
            self.prefix@,
            cursor_view(self.cursor),
            self.ascending,
        ));
    }
}

impl<K: Key> Selector<K> for Beyond<K> {
    open spec fn picks(&self, k: K::V) -> bool {
        beyond::<K>(cursor_view(self.cursor), self.ascending, k)
    }

    fn test(&self, k: &K) -> (r: bool) {
        match &self.cursor {
            None => true,
            Some(c) => {
                let rel = c.rel(k);
                if self.ascending {
                    rel == Rel::Before
                } else {
                    rel == Rel::After
                }
            },
        }
    }
}

impl<A: Key, B: Key> Selector<(A, B)> for Within<A, B> {
    open spec fn picks(&self, k: (A::V, B::V)) -> bool {
        k.0 == self.prefix@ && beyond::<B>(cursor_view(self.cursor), self.ascending, k.1)
    }

    fn test(&self, k: &(A, B)) -> (r: bool) {
        if self.prefix.rel(&k.0) != Rel::Same {
            return false;
        }
        match &self.cursor {
            None => true,
            Some(c) => {
                let rel = c.rel(&k.1);
                if self.ascending {
                    rel == Rel::Before
                } else {
                    rel == Rel::After
                }
            },
        }
    }
}

/// The keys are strictly increasing.
pub open spec fn increasing<K: Key>(keys: Seq<K::V>) -> bool {
    forall|i: int, j: int| 0 <= i < j < keys.len()
        ==> K::before(#[trigger] keys[i], #[trigger] keys[j])
}

/// The positions below `upto` whose key satisfies `pred`, in ascending order.
pub open spec fn picked_up<T>(keys: Seq<T>, pred: spec_fn(T) -> bool, upto: int) -> Seq<int>
    decreases upto,
{
    if upto <= 0 {
        Seq::empty()
    } else {
        let rest = picked_up(keys, pred, upto - 1);
        if pred(keys[upto - 1]) {
            rest.push(upto - 1)
        } else {
            rest
        }
    }
}

/// The positions from `from` on whose key satisfies `pred`, in descending
/// order.
pub open spec fn picked_down<T>(keys: Seq<T>, pred: spec_fn(T) -> bool, from: int) -> Seq<int>
    decreases keys.len() - from,
{
    if from >= keys.len() {
        Seq::empty()
    } else {
        let rest = picked_down(keys, pred, from + 1);
        if pred(keys[from]) {
            rest.push(from)
        } else {
            rest
        }
    }
}

/// At most the first `limit` items of a sequence.
pub open spec fn truncate<T>(s: Seq<T>, limit: int) -> Seq<T> {
    if s.len() <= limit {
        s
    } else {
        s.take(limit)
    }
}

/// The positions of one page of a scan: the first `limit` positions, in scan
/// order, whose key satisfies `pred`.
pub open spec fn page<T>(keys: Seq<T>, pred: spec_fn(T) -> bool, limit: int,
    ascending: bool) -> Seq<
    int,
> {
    if ascending {
        truncate(picked_up(keys, pred, keys.len() as int), limit)
    } else {
        truncate(picked_down(keys, pred, 0), limit)
    }
}

/// Every position of an ascending scan is in range, satisfies the test, and
/// the positions increase.
pub proof fn lemma_picked_up_sound<T>(keys: Seq<T>, pred: spec_fn(T) -> bool, upto: int)
    requires
        upto <= keys.len(),
    ensures
        picked_up(keys, pred, upto).len() <= (if upto < 0 {
            0
        } else {
            upto
        }),
        forall|n: int|
            0 <= n < picked_up(keys, pred, upto).len() ==> {
                let p = #[trigger] picked_up(keys, pred, upto)[n];
                0 <= p < upto && pred(keys[p])
            },
        forall|m: int, n: int|
            0 <= m < n < picked_up(keys, pred, upto).len() ==> picked_up(keys, pred, upto)[m]
                < picked_up(keys, pred, upto)[n],
        forall|p: int|
            0 <= p < upto && pred(keys[p]) ==> picked_up(keys, pred, upto).contains(p),
    decreases upto,
{
    if upto > 0 {
        lemma_picked_up_sound(keys, pred, upto - 1);
        let rest = picked_up(keys, pred, upto - 1);
        let all = picked_up(keys, pred, upto);
        assert forall|p: int| 0 <= p < upto && pred(keys[p]) implies all.contains(p) by {
            if p < upto - 1 {
                assert(rest.contains(p));
                let n = choose|n: int| 0 <= n < rest.len() && rest[n] == p;
                assert(all[n] == p);
            } else {
                assert(all[all.len() - 1] == p);
            }
        }
    }
}

/// Every position of a descending scan is in range, satisfies the test, and
/// the positions decrease.
pub proof fn lemma_picked_down_sound<T>(keys: Seq<T>, pred: spec_fn(T) -> bool, from: int)
    requires
        0 <= from,
    ensures
        picked_down(keys, pred, from).len() <= (if from > keys.len() {
            0
        } else {
            keys.len() - from
        }),
        forall|n: int|
            0 <= n < picked_down(keys, pred, from).len() ==> {
                let p = #[trigger] picked_down(keys, pred, from)[n];
                from <= p < keys.len() && pred(keys[p])
            },
        forall|m: int, n: int|
            0 <= m < n < picked_down(keys, pred, from).len() ==> picked_down(keys, pred, from)[m]
                > picked_down(keys, pred, from)[n],
        forall|p: int|
            from <= p < keys.len() && pred(keys[p]) ==> picked_down(keys, pred, from).contains(p),
    decreases keys.len() - from,
{
    if from < keys.len() {
        lemma_picked_down_sound(keys, pred, from + 1);
        let rest = picked_down(keys, pred, from + 1);
        let all = picked_down(keys, pred, from);
        assert forall|p: int| from <= p < keys.len() && pred(keys[p]) implies all.contains(p) by {
            if p > from {
                assert(rest.contains(p));
                let n = choose|n: int| 0 <= n < rest.len() && rest[n] == p;
                assert(all[n] == p);
            } else {
                assert(all[all.len() - 1] == p);
            }
        }
    }
}

/// An ascending scan that has come as far as `upto` has found a prefix of
/// what the whole scan finds.
proof fn lemma_picked_up_prefix<T>(keys: Seq<T>, pred: spec_fn(T) -> bool, upto: int, end: int)
    requires
        0 <= upto <= end,
    ensures
        picked_up(keys, pred, upto).len() <= picked_up(keys, pred, end).len(),
        picked_up(keys, pred, end).take(picked_up(keys, pred, upto).len() as int) == picked_up(
            keys,
            pred,
            upto,
        ),
    decreases end - upto,
{
    let part = picked_up(keys, pred, upto);
    if upto < end {
        lemma_picked_up_prefix(keys, pred, upto, end - 1);
        let shorter = picked_up(keys, pred, end - 1);
        let all = picked_up(keys, pred, end);
        assert(all.take(part.len() as int) =~= shorter.take(part.len() as int));
    } else {
        assert(part.take(part.len() as int) =~= part);
    }
}

/// A descending scan that has come down to `from` has found a prefix of what
/// the whole scan finds.
proof fn lemma_picked_down_prefix<T>(keys: Seq<T>, pred: spec_fn(T) -> bool, from: int, start: int)
    requires
        0 <= start <= from <= keys.len(),
    ensures
        picked_down(keys, pred, from).len() <= picked_down(keys, pred, start).len(),
        picked_down(keys, pred, start).take(picked_down(keys, pred, from).len() as int)
            == picked_down(keys, pred, from),
    decreases from - start,
{
    let part = picked_down(keys, pred, from);
    if start < from {
        lemma_picked_down_prefix(keys, pred, from, start + 1);
        let shorter = picked_down(keys, pred, start + 1);
        let all = picked_down(keys, pred, start);
        assert(all.take(part.len() as int) =~= shorter.take(part.len() as int));
    } else {
        assert(part.take(part.len() as int) =~= part);
    }
}

/// The keys of a page come in the order of the scan: each before the next
/// when it runs upwards, each after the next when it runs downwards.
pub proof fn lemma_page_in_key_order<K: Key>(
    keys: Seq<K::V>,
    pred: spec_fn(K::V) -> bool,
    limit: int,
    ascending: bool,
    m: int,
    n: int,
)
    requires
        increasing::<K>(keys),
        0 <= limit,
        0 <= m < n < page(keys, pred, limit, ascending).len(),
    ensures
        ({
            let positions = page(keys, pred, limit, ascending);
            &&& 0 <= positions[m] < keys.len()
            &&& 0 <= positions[n] < keys.len()
            &&& pred(keys[positions[m]])
            &&& if ascending {
                K::before(keys[positions[m]], keys[positions[n]])
            } else {
                K::before(keys[positions[n]], keys[positions[m]])
            }
        }),
{
    let positions = page(keys, pred, limit, ascending);
    if ascending {
        lemma_picked_up_sound(keys, pred, keys.len() as int);
        let all = picked_up(keys, pred, keys.len() as int);
        assert(positions[m] == all[m]);
        assert(positions[n] == all[n]);
        assert(all[m] < all[n]);
    } else {
        lemma_picked_down_sound(keys, pred, 0);
        let all = picked_down(keys, pred, 0);
        assert(positions[m] == all[m]);
        assert(positions[n] == all[n]);
        assert(all[m] > all[n]);
    }
}

impl<K: Key, V> OrdMap<K, V> {
    /// The keys in increasing order.
    pub open spec fn key_seq(&self) -> Seq<K::V> {
        self.keys@.map_values(|k: K| k@)
    }

    /// The values, each at the position of its key.
    pub open spec fn val_seq(&self) -> Seq<V> {
        self.vals@
    }

    /// Keys and values stand side by side and the keys strictly increase.
    pub open spec fn wf(&self) -> bool {
        &&& self.keys@.len() == self.vals@.len()
        &&& increasing::<K>(self.key_seq())
    }

    /// The number of entries.
    pub open spec fn count(&self) -> nat {
        self.keys@.len()
    }

    /// Whether the map holds the key.
    pub open spec fn contains(&self, k: K::V) -> bool {
        self.key_seq().contains(k)
    }

    /// The position of a key that the map holds.
    pub open spec fn index_of(&self, k: K::V) -> int {
        self.key_seq().index_of(k)
    }

    /// The value stored under a key that the map holds.
    pub open spec fn value(&self, k: K::V) -> V {
        self.val_seq()[self.index_of(k)]
    }

    /// In a well-formed map no key occurs twice, so a key determines its
    /// position.
    pub proof fn lemma_position(&self, i: int)
        requires
            self.wf(),
            0 <= i < self.count(),
        ensures
            self.contains(self.key_seq()[i]),
            self.index_of(self.key_seq()[i]) == i,
            self.value(self.key_seq()[i]) == self.val_seq()[i],
    {
        let k = self.key_seq()[i];
        assert(self.key_seq().contains(k));
        let j = self.key_seq().index_of(k);
        if j < i {
            K::before_irreflexive(k);
            assert(K::before(self.key_seq()[j], self.key_seq()[i]));
        } else if i < j {
            K::before_irreflexive(k);
            assert(K::before(self.key_seq()[i], self.key_seq()[j]));
        }
    }

    /// Whether keys and values stand side by side and the keys strictly
    /// increase.
    pub fn is_ordered(&self) -> (r: bool)
        ensures
            r == self.wf(),
    {
        if self.keys.len() != self.vals.len() {
            return false;
        }
        let n = self.keys.len();
        if n == 0 {
            return true;
        }
        let ghost keys = self.key_seq();
        let mut i: usize = 1;
        while i < n
            invariant
                1 <= i <= n,
                n == self.keys@.len(),
                keys == self.key_seq(),
                forall|a: int, b: int|
                    0 <= a < b < i ==> K::before(#[trigger] keys[a], #[trigger] keys[b]),
            decreases n - i,
        {
            match self.keys[i - 1].rel(&self.keys[i]) {
                Rel::Before => {},
                _ => {
                    proof {
                        K::before_irreflexive(keys[i as int]);
                        if K::before(keys[i - 1], keys[i as int]) {
                            if K::before(keys[i as int], keys[i - 1]) {
                                K::before_transitive(keys[i as int], keys[i - 1], keys[i as int]);
                            }
                        }
                    }
                    return false;
                },
            }
            proof {
                assert forall|a: int, b: int| 0 <= a < b < i + 1 implies K::before(
                    #[trigger] keys[a],
                    #[trigger] keys[b],
                ) by {
                    if b == i {
                        if a < i - 1 {
                            assert(K::before(keys[a], keys[i - 1]));
                            K::before_transitive(keys[a], keys[i - 1], keys[i as int]);
                        }
                    }
                }
            }
            i = i + 1;
        }
        true
    }

    /// A map without entries.
    pub fn new() -> (r: Self)
        ensures
            r.wf(),
            r.count() == 0,
            forall|k: K::V| !r.contains(k),
    {
        OrdMap { keys: Vec::new(), vals: Vec::new() }
    }

    /// The number of entries.
    pub fn len(&self) -> (r: usize)
        requires
            self.wf(),
        ensures
            r == self.count(),
    {
        self.keys.len()
    }

    /// The key at a position.
    pub fn key_at(&self, i: usize) -> (r: &K)
        requires
            self.wf(),
            i < self.count(),
        ensures
            r@ == self.key_seq()[i as int],
    {
        &self.keys[i]
    }

    /// The value at a position.
    pub fn val_at(&self, i: usize) -> (r: &V)
        requires
            self.wf(),
            i < self.count(),
        ensures
            *r == self.val_seq()[i as int],
    {
        &self.vals[i]
    }

    /// The position of the first key that does not come before `k`, and
    /// whether that key is `k` itself.
    pub fn locate(&self, k: &K) -> (r: (usize, bool))
        requires
            self.wf(),
        ensures
            r.0 <= self.count(),
            forall|i: int| 0 <= i < r.0 ==> K::before(#[trigger] self.key_seq()[i], k@),
            forall|i: int| r.0 < i < self.count() ==> K::before(k@, #[trigger] self.key_seq()[i]),
            r.1 ==> r.0 < self.count() && self.key_seq()[r.0 as int] == k@,
            !r.1 && r.0 < self.count() ==> K::before(k@, self.key_seq()[r.0 as int]),
            r.1 == self.contains(k@),
            r.1 ==> self.index_of(k@) == r.0,
    {
        let n = self.keys.len();
        let mut i: usize = 0;
        let mut found = false;
        while i < n
            invariant_except_break
                !found,
            invariant
                self.wf(),
                n == self.count(),
                i <= n,
                forall|j: int| 0 <= j < i ==> K::before(#[trigger] self.key_seq()[j], k@),
            ensures
                i <= n,
                found ==> i < n && self.key_seq()[i as int] == k@,
                !found && i < n ==> K::before(k@, self.key_seq()[i as int]),
            decreases n - i,
        {
            match self.keys[i].rel(k) {
                Rel::Before => {
                    i = i + 1;
                },
                Rel::Same => {
                    found = true;
                    break ;
                },
                Rel::After => {
                    break ;
                },
            }
        }
        proof {
            let keys = self.key_seq();
            assert forall|j: int| i < j < self.count() implies K::before(k@,
                #[trigger] keys[j]) by {
                assert(K::before(keys[i as int], keys[j]));
                if found {
                } else {
                    K::before_transitive(k@, keys[i as int], keys[j]);
                }
            }
            if found {
                self.lemma_position(i as int);
            } else {
                if keys.contains(k@) {
                    let j = choose|j: int| 0 <= j < keys.len() && keys[j] == k@;
                    K::before_irreflexive(k@);
                }
            }
        }
        (i, found)
    }

    /// Whether the map holds the key.
    pub fn has(&self, k: &K) -> (r: bool)
        requires
            self.wf(),
        ensures
            r == self.contains(k@),
    {
        self.locate(k).1
    }

    /// The value stored under the key, if any.
    pub fn get(&self, k: &K) -> (r: Option<&V>)
        requires
            self.wf(),
        ensures
            match r {
                Some(v) => self.contains(k@) && *v == self.value(k@),
                None => !self.contains(k@),
            },
    {
        let (i, found) = self.locate(k);
        if found {
            Some(&self.vals[i])
        } else {
            None
        }
    }

    /// Stores `v` under `k`, replacing what was there.
    pub fn set(&mut self, k: K, v: V)
        requires
            old(self).wf(),
        ensures
            final(self).wf(),
            final(self).contains(k@),
            final(self).value(k@) == v,
            forall|k2: K::V|
                k2 != k@ ==> (#[trigger] final(self).contains(k2) <==> old(self).contains(k2)),
            forall|k2: K::V|
                k2 != k@ && old(self).contains(k2) ==> #[trigger] final(self).value(k2) == old(
                    self,
                ).value(k2),
            old(self).contains(k@) ==> {
                &&& final(self).key_seq() == old(self).key_seq()
                &&& final(self).val_seq() == old(self).val_seq().update(old(self).index_of(k@), v)
            },
            !old(self).contains(k@) ==> {
                &&& final(self).key_seq() == old(self).key_seq().insert(final(self).index_of(k@),
                    k@)
                &&& final(self).val_seq() == old(self).val_seq().insert(final(self).index_of(k@), v)
                &&& 0 <= final(self).index_of(k@) <= old(self).count()
            },
    {
        let (i, found) = self.locate(&k);
        let ghost kv = k@;
        let ghost before_keys = self.key_seq();
        let ghost before_vals = self.val_seq();
        if found {
            self.vals.set(i, v);
            proof {
                assert(self.key_seq() == before_keys);
                self.lemma_position(i as int);
                assert forall|k2: K::V| k2 != kv
                    && old(self).contains(k2) implies #[trigger] self.value(
                    k2,
                ) == old(self).value(k2) by {
                    let j = before_keys.index_of(k2);
                    assert(j != i);
                }
            }
        } else {
            self.keys.insert(i, k);
            self.vals.insert(i, v);
            proof {
                let after_keys = self.key_seq();
                assert(after_keys =~= before_keys.insert(i as int, kv));
                assert forall|a: int, b: int| 0 <= a < b < after_keys.len() implies K::before(
                    #[trigger] after_keys[a],
                    #[trigger] after_keys[b],
                ) by {
                    if b < i {
                        assert(K::before(before_keys[a], before_keys[b]));
                    } else if b == i {
                        assert(K::before(before_keys[a], kv));
                    } else if a < i {
                        assert(K::before(before_keys[a], before_keys[b - 1]));
                    } else if a == i {
                        assert(K::before(kv, before_keys[b - 1]));
                    } else {
                        assert(K::before(before_keys[a - 1], before_keys[b - 1]));
                    }
                }
                self.lemma_position(i as int);
                assert forall|k2: K::V| k2 != kv implies (#[trigger] self.contains(k2) <==> old(
                    self,
                ).contains(k2)) by {
                    if old(self).contains(k2) {
                        let j = before_keys.index_of(k2);
                        if j < i {
                            assert(after_keys[j] == k2);
                        } else {
                            assert(after_keys[j + 1] == k2);
                        }
                    }
                    if self.contains(k2) {
                        let j = after_keys.index_of(k2);
                        if j < i {
                            assert(before_keys[j] == k2);
                        } else {
                            assert(before_keys[j - 1] == k2);
                        }
                    }
                }
                assert forall|k2: K::V| k2 != kv
                    && old(self).contains(k2) implies #[trigger] self.value(
                    k2,
                ) == old(self).value(k2) by {
                    let j = before_keys.index_of(k2);
                    old(self).lemma_position(j);
                    if j < i {
                        assert(after_keys[j] == k2);
                        self.lemma_position(j);
                    } else {
                        assert(after_keys[j + 1] == k2);
                        self.lemma_position(j + 1);
                    }
                }
            }
        }
    }

    /// Replaces the value at a position; the keys stay as they are.
    pub fn put_at(&mut self, i: usize, v: V)
        requires
            old(self).wf(),
            i < old(self).count(),
        ensures
            final(self).wf(),
            final(self).key_seq() == old(self).key_seq(),
            final(self).val_seq() == old(self).val_seq().update(i as int, v),
    {
        self.vals.set(i, v);
    }

    /// Removes the entry under `k`, if there is one.
    pub fn remove(&mut self, k: &K)
        requires
            old(self).wf(),
        ensures
            final(self).wf(),
            !final(self).contains(k@),
            forall|k2: K::V|
                k2 != k@ ==> (#[trigger] final(self).contains(k2) <==> old(self).contains(k2)),
            forall|k2: K::V|
                k2 != k@ && old(self).contains(k2) ==> #[trigger] final(self).value(k2) == old(
                    self,
                ).value(k2),
            old(self).contains(k@) ==> {
                &&& final(self).key_seq() == old(self).key_seq().remove(old(self).index_of(k@))
                &&& final(self).val_seq() == old(self).val_seq().remove(old(self).index_of(k@))
            },
            !old(self).contains(k@) ==> {
                &&& final(self).key_seq() == old(self).key_seq()
                &&& final(self).val_seq() == old(self).val_seq()
            },
    {
        let (i, found) = self.locate(k);
        let ghost kv = k@;
        let ghost before_keys = self.key_seq();
        if found {
            self.keys.remove(i);
            self.vals.remove(i);
            proof {
                let after_keys = self.key_seq();
                assert(after_keys =~= before_keys.remove(i as int));
                assert forall|a: int, b: int| 0 <= a < b < after_keys.len() implies K::before(
                    #[trigger] after_keys[a],
                    #[trigger] after_keys[b],
                ) by {
                    if b < i {
                        assert(K::before(before_keys[a], before_keys[b]));
                    } else if a < i {
                        assert(K::before(before_keys[a], before_keys[b + 1]));
                    } else {
                        assert(K::before(before_keys[a + 1], before_keys[b + 1]));
                    }
                }
                old(self).lemma_position(i as int);
                if self.contains(kv) {
                    let j = after_keys.index_of(kv);
                    if j < i {
                        old(self).lemma_position(j);
                    } else {
                        old(self).lemma_position(j + 1);
                    }
                }
                assert forall|k2: K::V| k2 != kv implies (#[trigger] self.contains(k2) <==> old(
                    self,
                ).contains(k2)) by {
                    if old(self).contains(k2) {
                        let j = before_keys.index_of(k2);
                        if j < i {
                            assert(after_keys[j] == k2);
                        } else {
                            assert(after_keys[j - 1] == k2);
                        }
                    }
                    if self.contains(k2) {
                        let j = after_keys.index_of(k2);
                        if j < i {
                            assert(before_keys[j] == k2);
                        } else {
                            assert(before_keys[j + 1] == k2);
                        }
                    }
                }
                assert forall|k2: K::V| k2 != kv
                    && old(self).contains(k2) implies #[trigger] self.value(
                    k2,
                ) == old(self).value(k2) by {
                    let j = before_keys.index_of(k2);
                    old(self).lemma_position(j);
                    if j < i {
                        assert(after_keys[j] == k2);
                        self.lemma_position(j);
                    } else {
                        assert(after_keys[j - 1] == k2);
                        self.lemma_position(j - 1);
                    }
                }
            }
        }
    }

    /// One page of a scan over the keys: the positions of the first `limit`
    /// keys, in scan order, that the selector picks.
    pub fn select<S: Selector<K>>(&self, selector: &S, limit: usize, ascending: bool) -> (r: Vec<
        usize,
    >)
        requires
            self.wf(),
        ensures
            r@.map_values(|p: usize| p as int) == page(
                self.key_seq(),
                |k: K::V| selector.picks(k),
                limit as int,
                ascending,
            ),
            r@.len() <= limit,
            forall|n: int|
                0 <= n < r@.len() ==> (#[trigger] r@[n]) < self.count() && selector.picks(
                    self.key_seq()[r@[n] as int],
                ),
    {
        let n = self.keys.len();
        let ghost keys = self.key_seq();
        let ghost pred = |k: K::V| selector.picks(k);
        let mut out: Vec<usize> = Vec::new();
        if ascending {
            let mut i: usize = 0;
            while i < n && out.len() < limit
                invariant
                    self.wf(),
                    n == self.count(),
                    keys == self.key_seq(),
                    pred == (|k: K::V| selector.picks(k)),
                    i <= n,
                    out@.len() <= limit,
                    out@.map_values(|p: usize| p as int) == picked_up(keys, pred, i as int),
                decreases n - i,
            {
                if selector.test(&self.keys[i]) {
                    out.push(i);
                    assert(out@.map_values(|p: usize| p as int) =~= picked_up(
                        keys,
                        pred,
                        i as int,
                    ).push(i as int));
                }
                i = i + 1;
            }
            proof {
                lemma_picked_up_prefix(keys, pred, i as int, n as int);
                lemma_picked_up_sound(keys, pred, i as int);
                let found = picked_up(keys, pred, i as int);
                assert forall|m: int| 0 <= m < out@.len()
                    implies (#[trigger] out@[m]) < self.count()
                    && selector.picks(self.key_seq()[out@[m] as int]) by {
                    assert(out@.map_values(|p: usize| p as int)[m] == found[m]);
                }
            }
        } else {
            let mut i: usize = n;
            while i > 0 && out.len() < limit
                invariant
                    self.wf(),
                    n == self.count(),
                    keys == self.key_seq(),
                    pred == (|k: K::V| selector.picks(k)),
                    i <= n,
                    out@.len() <= limit,
                    out@.map_values(|p: usize| p as int) == picked_down(keys, pred, i as int),
                decreases i,
            {
                i = i - 1;
                if selector.test(&self.keys[i]) {
                    out.push(i);
                    assert(out@.map_values(|p: usize| p as int) =~= picked_down(
                        keys,
                        pred,
                        i as int + 1,
                    ).push(i as int));
                }
            }
            proof {
                lemma_picked_down_prefix(keys, pred, i as int, 0);
                lemma_picked_down_sound(keys, pred, i as int);
                let found = picked_down(keys, pred, i as int);
                assert forall|m: int| 0 <= m < out@.len()
                    implies (#[trigger] out@[m]) < self.count()
                    && selector.picks(self.key_seq()[out@[m] as int]) by {
                    assert(out@.map_values(|p: usize| p as int)[m] == found[m]);
                }
            }
        }
        out
    }
}

} // verus!
