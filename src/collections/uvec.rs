//! A [`Uvec`] is a vector containing unique elements.
//!
//! For each element of type `V` in the vector, a key of type `K` is generated by a key-generating
//! function, a value implementing [`KeyFn`]. If the function gives no key, the value is not inserted. If
//! its key equals the key of an element already present, the value is not inserted either.
//!
//! If the types `K` and `V` are identical, a [`Uvec`] may be created using [`Uvec::new`], which uses the
//! value itself as its key.

use vstd::prelude::*;

use vstd::std_specs::cmp::PartialEqSpec;
use vstd::std_specs::cmp::PartialOrdSpec;

use crate::opt_view;

verus! {

// Keys -----------------------------------------------------------------------------------------------------

/// A key of a [`Uvec`]: two keys are the same if their views are equal.
pub trait UniqueKey: View + Sized {
    /// Returns whether two keys are the same.
    fn same_key(&self, other: &Self) -> (r: bool)
        ensures
            r == (self@ == other@),
    ;

    /// Returns a copy of this key.
    fn copy_key(&self) -> (r: Self)
        ensures
            r@ == self@,
    ;
}

impl UniqueKey for String {
    fn same_key(&self, other: &Self) -> (r: bool) {
        *self == *other
    }

    fn copy_key(&self) -> (r: Self) {
        self.clone()
    }
}

impl UniqueKey for i32 {
    fn same_key(&self, other: &Self) -> (r: bool) {
        *self == *other
    }

    fn copy_key(&self) -> (r: Self) {
        *self
    }
}

impl UniqueKey for i64 {
    fn same_key(&self, other: &Self) -> (r: bool) {
        *self == *other
    }

    fn copy_key(&self) -> (r: Self) {
        *self
    }
}

impl UniqueKey for u32 {
    fn same_key(&self, other: &Self) -> (r: bool) {
        *self == *other
    }

    fn copy_key(&self) -> (r: Self) {
        *self
    }
}

impl UniqueKey for u64 {
    fn same_key(&self, other: &Self) -> (r: bool) {
        *self == *other
    }

    fn copy_key(&self) -> (r: Self) {
        *self
    }
}

impl UniqueKey for usize {
    fn same_key(&self, other: &Self) -> (r: bool) {
        *self == *other
    }

    fn copy_key(&self) -> (r: Self) {
        *self
    }
}

impl UniqueKey for char {
    fn same_key(&self, other: &Self) -> (r: bool) {
        *self == *other
    }

    fn copy_key(&self) -> (r: Self) {
        *self
    }
}

/// A key-generating function: it maps a value to a key, or to no key at all.
///
/// The key depends on the value alone: [`KeyFn::spec_key`] states which one it is.
pub trait KeyFn<K: View, V> {
    /// The key of `v`, or `None` if `v` has no key.
    spec fn spec_key(&self, v: V) -> Option<K::V>;

    /// Computes the key of `v`.
    fn key(&self, v: &V) -> (r: Option<K>)
        ensures
            opt_view(r) == self.spec_key(*v),
    ;
}

/// The key-generating function that uses a copy of the value itself as its key.
#[derive(Clone, Copy, Debug)]
pub struct Identity;

impl<V: UniqueKey> KeyFn<V, V> for Identity {
    open spec fn spec_key(&self, v: V) -> Option<V::V> {
        Some(v@)
    }

    fn key(&self, v: &V) -> (r: Option<V>) {
        Some(v.copy_key())
    }
}

/// The decimal digits of `n`, without leading zeros.
pub open spec fn digits_of(n: nat) -> Seq<char>
    decreases n,
{
    let d = seq!['0', '1', '2', '3', '4', '5', '6', '7', '8', '9'][(n % 10) as int];
    if n < 10 {
        seq![d]
    } else {
        digits_of(n / 10).push(d)
    }
}

/// The decimal text of `v`: its digits, behind a `-` if it is negative.
pub open spec fn decimal_of(v: i32) -> Seq<char> {
    if v < 0 {
        seq!['-'] + digits_of((-v) as nat)
    } else {
        digits_of(v as nat)
    }
}

/// Relies on `i32::to_string`: the decimal text of `v`.
#[verifier::external_body]
fn to_decimal(v: i32) -> (r: String)
    ensures
        r@ == decimal_of(v),
{
    v.to_string()
}

/// The key-generating function that uses the decimal text of an integer as its key.
#[derive(Clone, Copy, Debug)]
pub struct DecimalKey;

impl KeyFn<String, i32> for DecimalKey {
    open spec fn spec_key(&self, v: i32) -> Option<Seq<char>> {
        Some(decimal_of(v))
    }

    fn key(&self, v: &i32) -> (r: Option<String>) {
        Some(to_decimal(*v))
    }
}

// Specification --------------------------------------------------------------------------------------------

/// Whether some element of `s` has the key `k`.
pub open spec fn has_key<K: View, V, F: KeyFn<K, V>>(f: F, s: Seq<V>, k: K::V) -> bool {
    exists|i: int| 0 <= i < s.len() && f.spec_key(#[trigger] s[i]) == Some(k)
}

/// Whether every element of `s` has a key, and no two elements have the same key.
pub open spec fn unique_keys<K: View, V, F: KeyFn<K, V>>(f: F, s: Seq<V>) -> bool {
    &&& forall|i: int| 0 <= i < s.len() ==> (#[trigger] f.spec_key(s[i])) is Some
    &&& forall|i: int, j: int|
        0 <= i < j < s.len() ==> f.spec_key(#[trigger] s[i]) != f.spec_key(#[trigger] s[j])
}

/// Whether `v` may join the elements `s`: it has a key, and no element of `s` has that key.
pub open spec fn accepts<K: View, V, F: KeyFn<K, V>>(f: F, s: Seq<V>, v: V) -> bool {
    match f.spec_key(v) {
        Some(k) => !has_key(f, s, k),
        None => false,
    }
}

/// The elements after pushing `v` onto `s`.
pub open spec fn pushed<K: View, V, F: KeyFn<K, V>>(f: F, s: Seq<V>, v: V) -> Seq<V> {
    if accepts(f, s, v) {
        s.push(v)
    } else {
        s
    }
}

/// The elements after pushing each of `items` onto `s`, in order.
pub open spec fn extended<K: View, V, F: KeyFn<K, V>>(f: F, s: Seq<V>, items: Seq<V>) -> Seq<V>
    decreases items.len(),
{
    if items.len() == 0 {
        s
    } else {
        pushed(f, extended(f, s, items.drop_last()), items.last())
    }
}

/// Whether the elements `r` are, in order, the items of `items` at the increasing positions `idx`, each of
/// them the first item with its key.
pub open spec fn picks_first_occurrences<K: View, V, F: KeyFn<K, V>>(
    f: F,
    items: Seq<V>,
    r: Seq<V>,
    idx: Seq<int>,
) -> bool {
    &&& idx.len() == r.len()
    &&& forall|m: int|
        0 <= m < idx.len() ==> {
            &&& 0 <= #[trigger] idx[m] < items.len()
            &&& r[m] == items[idx[m]]
            &&& forall|j: int| 0 <= j < idx[m] ==> f.spec_key(#[trigger] items[j]) != f.spec_key(items[idx[m]])
        }
    &&& forall|m: int, n: int| 0 <= m < n < idx.len() ==> #[trigger] idx[m] < #[trigger] idx[n]
}

// Laws -----------------------------------------------------------------------------------------------------

/// Extending an empty collection keeps exactly the first occurrence of each key, in the order of `items`:
/// the result has unique keys, holds the key of every item that has one, and its elements are, in order,
/// items at increasing positions, each of them the first item with its key.
pub proof fn lemma_extend_keeps_first_occurrences<K: View, V, F: KeyFn<K, V>>(f: F, items: Seq<V>)
    ensures
        unique_keys(f, extended(f, Seq::empty(), items)),
        forall|i: int|
            0 <= i < items.len() && (#[trigger] f.spec_key(items[i])) is Some ==> has_key(
                f,
                extended(f, Seq::empty(), items),
                f.spec_key(items[i])->0,
            ),
        exists|idx: Seq<int>|
            #[trigger] picks_first_occurrences(f, items, extended(f, Seq::empty(), items), idx),
    decreases items.len(),
{
    let r = extended(f, Seq::empty(), items);
    if items.len() == 0 {
        let idx = Seq::<int>::empty();
        assert(picks_first_occurrences(f, items, r, idx));
    } else {
        let prev = items.drop_last();
        let v = items.last();
        let last = items.len() - 1;
        lemma_extend_keeps_first_occurrences(f, prev);
        let d = extended(f, Seq::empty(), prev);
        let idx0 = choose|idx: Seq<int>| #[trigger] picks_first_occurrences(f, prev, d, idx);
        assert forall|i: int| 0 <= i < last implies #[trigger] items[i] == prev[i] by {}
        if accepts(f, d, v) {
            let idx = idx0.push(last);
            assert(r == d.push(v));
            assert forall|i: int, j: int|
                0 <= i < j < r.len() implies f.spec_key(#[trigger] r[i]) != f.spec_key(#[trigger] r[j]) by {
                if j == r.len() - 1 {
                    assert(r[i] == d[i]);
                    if f.spec_key(d[i]) == f.spec_key(v) {
                        assert(has_key(f, d, f.spec_key(v)->0));
                    }
                } else {
                    assert(r[i] == d[i] && r[j] == d[j]);
                }
            }
            assert forall|i: int| 0 <= i < r.len() implies (#[trigger] f.spec_key(r[i])) is Some by {
                if i < d.len() {
                    assert(r[i] == d[i]);
                }
            }
            assert forall|i: int|
                0 <= i < items.len() && (#[trigger] f.spec_key(items[i])) is Some implies has_key(
                f,
                r,
                f.spec_key(items[i])->0,
            ) by {
                if i == last {
                    assert(r[r.len() - 1] == v);
                } else {
                    assert(items[i] == prev[i]);
                    assert(f.spec_key(prev[i]) is Some);
                    let k = f.spec_key(items[i])->0;
                    let w = choose|w: int| 0 <= w < d.len() && f.spec_key(#[trigger] d[w]) == Some(k);
                    assert(r[w] == d[w]);
                }
            }
            assert forall|m: int| 0 <= m < idx.len() implies {
                &&& 0 <= #[trigger] idx[m] < items.len()
                &&& r[m] == items[idx[m]]
                &&& forall|j: int|
                    0 <= j < idx[m] ==> f.spec_key(#[trigger] items[j]) != f.spec_key(items[idx[m]])
            } by {
                if m == idx.len() - 1 {
                    assert forall|j: int| 0 <= j < idx[m] implies f.spec_key(#[trigger] items[j])
                        != f.spec_key(items[idx[m]]) by {
                        assert(items[j] == prev[j]);
                        if f.spec_key(prev[j]) == f.spec_key(v) {
                            let k = f.spec_key(v)->0;
                            assert(f.spec_key(prev[j]) is Some);
                            assert(has_key(f, d, k));
                        }
                    }
                } else {
                    assert(idx[m] == idx0[m]);
                    assert forall|j: int| 0 <= j < idx[m] implies f.spec_key(#[trigger] items[j])
                        != f.spec_key(items[idx[m]]) by {
                        assert(items[j] == prev[j]);
                        assert(items[idx[m]] == prev[idx0[m]]);
                    }
                }
            }
            assert forall|m: int, n: int| 0 <= m < n < idx.len() implies #[trigger] idx[m] < #[trigger] idx[n] by {
                if n < idx.len() - 1 {
                    assert(idx[m] == idx0[m] && idx[n] == idx0[n]);
                }
            }
            assert(picks_first_occurrences(f, items, r, idx));
        } else {
            assert(r == d);
            assert forall|i: int|
                0 <= i < items.len() && (#[trigger] f.spec_key(items[i])) is Some implies has_key(
                f,
                r,
                f.spec_key(items[i])->0,
            ) by {
                if i < last {
                    assert(items[i] == prev[i]);
                    assert(f.spec_key(prev[i]) is Some);
                }
            }
            assert forall|m: int| 0 <= m < idx0.len() implies {
                &&& 0 <= #[trigger] idx0[m] < items.len()
                &&& r[m] == items[idx0[m]]
                &&& forall|j: int|
                    0 <= j < idx0[m] ==> f.spec_key(#[trigger] items[j]) != f.spec_key(items[idx0[m]])
            } by {
                assert(items[idx0[m]] == prev[idx0[m]]);
                assert forall|j: int| 0 <= j < idx0[m] implies f.spec_key(#[trigger] items[j])
                    != f.spec_key(items[idx0[m]]) by {
                    assert(items[j] == prev[j]);
                }
            }
            assert(picks_first_occurrences(f, items, r, idx0));
        }
    }
}

/// Pushing `v` and then popping gives `v` back, and the elements as they were, exactly when `v` has a key
/// that no element has (where the last element, if any, is not `v` itself).
pub proof fn lemma_push_then_pop<K: View, V, F: KeyFn<K, V>>(f: F, s: Seq<V>, v: V)
    requires
        s.len() == 0 || s.last() != v,
    ensures
        accepts(f, s, v) <==> (pushed(f, s, v).len() > 0 && pushed(f, s, v).last() == v),
        accepts(f, s, v) ==> pushed(f, s, v).drop_last() == s,
{
    if accepts(f, s, v) {
        assert(pushed(f, s, v).drop_last() =~= s);
    }
}

/// After the element at `i` is removed, pushing that same value again succeeds: its key is free.
pub proof fn lemma_remove_frees_key<K: View, V, F: KeyFn<K, V>>(f: F, s: Seq<V>, i: int)
    requires
        unique_keys(f, s),
        0 <= i < s.len(),
    ensures
        accepts(f, s.remove(i), s[i]),
        pushed(f, s.remove(i), s[i]) == s.remove(i).push(s[i]),
{
    let t = s.remove(i);
    let k = f.spec_key(s[i])->0;
    assert(f.spec_key(s[i]) is Some);
    if has_key(f, t, k) {
        let j = choose|j: int| 0 <= j < t.len() && f.spec_key(#[trigger] t[j]) == Some(k);
        if j < i {
            assert(t[j] == s[j]);
        } else {
            assert(t[j] == s[j + 1]);
        }
    }
}

// `Uvec` ---------------------------------------------------------------------------------------------------

/// A [`Uvec`] behaves very much like a [`Vec`], but it can only contain unique elements.
///
/// Its view is the sequence of its elements. Beside each element it keeps that element's key.
#[derive(Clone)]
pub struct Uvec<K, V, F> {
    keys: Vec<K>,
    vec: Vec<V>,
    key: F,
}

impl<K: UniqueKey, V, F: KeyFn<K, V>> View for Uvec<K, V, F> {
    type V = Seq<V>;

    closed spec fn view(&self) -> Seq<V> {
        self.vec@
    }
}

impl<K: UniqueKey, V, F: KeyFn<K, V>> Uvec<K, V, F> {
    /// The key-generating function.
    pub closed spec fn key_fn(&self) -> F {
        self.key
    }

    /// The well-formedness of a [`Uvec`]: each stored key is the key of the element beside it, and the
    /// stored keys are pairwise different.
    pub closed spec fn wf(&self) -> bool {
        &&& self.keys@.len() == self.vec@.len()
        &&& forall|i: int|
            0 <= i < self.vec@.len() ==> #[trigger] self.key.spec_key(self.vec@[i]) == Some(
                self.keys@[i]@,
            )
        &&& forall|i: int, j: int|
            0 <= i < j < self.keys@.len() ==> (#[trigger] self.keys@[i])@ != (#[trigger] self.keys@[j])@
    }

    /// A well-formed [`Uvec`] holds elements with unique keys.
    pub proof fn lemma_unique_keys(&self)
        requires
            self.wf(),
        ensures
            unique_keys(self.key_fn(), self@),
    {
        assert forall|i: int, j: int| 0 <= i < j < self@.len() implies self.key_fn().spec_key(
            #[trigger] self@[i],
        ) != self.key_fn().spec_key(#[trigger] self@[j]) by {
            assert(self.key.spec_key(self.vec@[i]) == Some(self.keys@[i]@));
            assert(self.key.spec_key(self.vec@[j]) == Some(self.keys@[j]@));
        }
        assert forall|i: int| 0 <= i < self@.len() implies (#[trigger] self.key_fn().spec_key(
            self@[i],
        )) is Some by {
            assert(self.key.spec_key(self.vec@[i]) == Some(self.keys@[i]@));
        }
    }

    /// Returns the position of the stored key `k`, if any.
    fn find_key(&self, k: &K) -> (r: Option<usize>)
        requires
            self.wf(),
        ensures
            match r {
                Some(i) => i < self@.len() && self.key.spec_key(self@[i as int]) == Some(k@),
                None => !has_key(self.key, self@, k@),
            },
    {
        let mut i: usize = 0;
        while i < self.keys.len()
            invariant
                self.wf(),
                i <= self.keys@.len(),
                forall|j: int| 0 <= j < i ==> (#[trigger] self.keys@[j])@ != k@,
            decreases self.keys@.len() - i,
        {
            if self.keys[i].same_key(k) {
                return Some(i);
            }
            i = i + 1;
        }
        proof {
            if has_key(self.key, self@, k@) {
                let j = choose|j: int| 0 <= j < self@.len() && self.key.spec_key(#[trigger] self@[j]) == Some(k@);
                assert(self.keys@[j]@ == k@);
            }
        }
        None
    }

    /// Extracts a slice containing the entire vector.
    pub fn as_slice(&self) -> (r: &[V])
        ensures
            r@ == self@,
    {
        self.vec.as_slice()
    }

    /// Clears the vector, removing all elements.
    pub fn clear(&mut self)
        ensures
            final(self).wf(),
            final(self)@ == Seq::<V>::empty(),
            final(self).key_fn() == old(self).key_fn(),
    {
        self.keys.clear();
        self.vec.clear();
    }

    /// Inserts a value at position `index` within the vector, shifting all elements after it to the right.
    ///
    /// Returns whether the operation succeeds: it does if `val` has a key and no element has the same key.
    pub fn insert(&mut self, index: usize, val: V) -> (r: bool)
        requires
            old(self).wf(),
            index <= old(self)@.len(),
        ensures
            final(self).wf(),
            final(self).key_fn() == old(self).key_fn(),
            r == accepts(old(self).key_fn(), old(self)@, val),
            final(self)@ == if r {
                old(self)@.insert(index as int, val)
            } else {
                old(self)@
            },
    {
        match self.key.key(&val) {
            Some(k) => {
                match self.find_key(&k) {
                    Some(_) => false,
                    None => {
                        let ghost old_keys = self.keys@;
                        let ghost old_vec = self.vec@;
                        self.keys.insert(index, k);
                        self.vec.insert(index, val);
                        proof {
                            assert forall|i: int|
                                0 <= i < self.vec@.len() implies #[trigger] self.key.spec_key(
                                self.vec@[i],
                            ) == Some(self.keys@[i]@) by {
                                if i < index {
                                    assert(self.vec@[i] == old_vec[i]);
                                } else if i > index {
                                    assert(self.vec@[i] == old_vec[i - 1]);
                                }
                            }
                            assert forall|i: int, j: int|
                                0 <= i < j < self.keys@.len() implies (#[trigger] self.keys@[i])@
                                != (#[trigger] self.keys@[j])@ by {
                                if i == index {
                                    assert(self.key.spec_key(old_vec[j - 1]) == Some(old_keys[j - 1]@));
                                } else if j == index {
                                    assert(self.key.spec_key(old_vec[i]) == Some(old_keys[i]@));
                                }
                            }
                        }
                        true
                    }
                }
            },
            None => false,
        }
    }

    /// Checks if the vector contains no elements.
    pub fn is_empty(&self) -> (r: bool)
        ensures
            r == (self@.len() == 0),
    {
        self.vec.is_empty()
    }

    /// Returns the number of elements in the vector, also referred to as its "length".
    pub fn len(&self) -> (r: usize)
        ensures
            r == self@.len(),
    {
        self.vec.len()
    }

    /// Removes the last element from a vector and returns it, or [`None`] if it is empty.
    pub fn pop(&mut self) -> (r: Option<V>)
        requires
            old(self).wf(),
        ensures
            final(self).wf(),
            final(self).key_fn() == old(self).key_fn(),
            old(self)@.len() == 0 ==> r is None && final(self)@ == old(self)@,
            old(self)@.len() > 0 ==> r == Some(old(self)@.last()) && final(self)@ == old(self)@.drop_last(),
    {
        match self.vec.pop() {
            Some(val) => {
                self.remove_key(self.keys.len() - 1);
                Some(val)
            },
            None => None,
        }
    }

    /// Drops the stored key at position `index`, after its element has been taken out.
    fn remove_key(&mut self, index: usize)
        requires
            old(self).keys@.len() == old(self).vec@.len() + 1,
            index < old(self).keys@.len(),
            forall|i: int|
                0 <= i < old(self).vec@.len() ==> #[trigger] old(self).key.spec_key(old(self).vec@[i])
                    == Some(old(self).keys@.remove(index as int)[i]@),
            forall|i: int, j: int|
                0 <= i < j < old(self).keys@.len() ==> (#[trigger] old(self).keys@[i])@ != (
                #[trigger] old(self).keys@[j])@,
        ensures
            final(self).wf(),
            final(self).vec@ == old(self).vec@,
            final(self).key == old(self).key,
    {
        let ghost old_keys = self.keys@;
        self.keys.remove(index);
        assert forall|i: int, j: int|
            0 <= i < j < self.keys@.len() implies (#[trigger] self.keys@[i])@ != (
            #[trigger] self.keys@[j])@ by {
            let a = if i < index { i } else { i + 1 };
            let b = if j < index { j } else { j + 1 };
            assert(self.keys@[i] == old_keys[a]);
            assert(self.keys@[j] == old_keys[b]);
        }
    }

    /// Appends a value to the back of the vector.
    ///
    /// Returns whether the operation succeeds: it does if `val` has a key and no element has the same key.
    pub fn push(&mut self, val: V) -> (r: bool)
        requires
            old(self).wf(),
        ensures
            final(self).wf(),
            final(self).key_fn() == old(self).key_fn(),
            r == accepts(old(self).key_fn(), old(self)@, val),
            final(self)@ == pushed(old(self).key_fn(), old(self)@, val),
    {
        match self.key.key(&val) {
            Some(k) => {
                match self.find_key(&k) {
                    Some(_) => false,
                    None => {
                        let ghost old_keys = self.keys@;
                        let ghost old_vec = self.vec@;
                        self.keys.push(k);
                        self.vec.push(val);
                        proof {
                            assert forall|i: int|
                                0 <= i < self.vec@.len() implies #[trigger] self.key.spec_key(
                                self.vec@[i],
                            ) == Some(self.keys@[i]@) by {
                                if i < old_vec.len() {
                                    assert(self.vec@[i] == old_vec[i]);
                                }
                            }
                            assert forall|i: int, j: int|
                                0 <= i < j < self.keys@.len() implies (#[trigger] self.keys@[i])@
                                != (#[trigger] self.keys@[j])@ by {
                                if j == old_keys.len() {
                                    assert(self.key.spec_key(old_vec[i]) == Some(old_keys[i]@));
                                }
                            }
                        }
                        true
                    }
                }
            },
            None => false,
        }
    }

    /// Removes and returns the element at position `index` within the vector, shifting all elements after it
    /// to the left.
    pub fn remove(&mut self, index: usize) -> (r: V)
        requires
            old(self).wf(),
            index < old(self)@.len(),
        ensures
            final(self).wf(),
            final(self).key_fn() == old(self).key_fn(),
            r == old(self)@[index as int],
            final(self)@ == old(self)@.remove(index as int),
    {
        let ghost old_vec = self.vec@;
        let ghost old_keys = self.keys@;
        let ret = self.vec.remove(index);
        assert forall|i: int|
            0 <= i < self.vec@.len() implies #[trigger] self.key.spec_key(self.vec@[i])
                == Some(old_keys.remove(index as int)[i]@) by {
            if i < index {
                assert(self.vec@[i] == old_vec[i]);
            } else {
                assert(self.vec@[i] == old_vec[i + 1]);
            }
        }
        self.remove_key(index);
        ret
    }

    /// Appends each of `items` in order; those that are refused are dropped.
    pub fn extend(&mut self, items: Vec<V>)
        requires
            old(self).wf(),
        ensures
            final(self).wf(),
            final(self).key_fn() == old(self).key_fn(),
            final(self)@ == extended(old(self).key_fn(), old(self)@, items@),
    {
        let ghost start = self@;
        let ghost all = items@;
        for item in it: items.into_iter()
            invariant
                self.wf(),
                self.key == old(self).key,
                it.seq() == all,
                self@ == extended(self.key, start, all.subrange(0, it.index())),
        {
            proof {
                assert(all.subrange(0, it.index() + 1).drop_last() == all.subrange(0, it.index()));
            }
            self.push(item);
        }
        proof {
            assert(all.subrange(0, all.len() as int) == all);
        }
    }

    /// Returns the keys of the elements, in the order of the elements.
    pub fn keys(&self) -> (r: &[K])
        requires
            self.wf(),
        ensures
            r@.len() == self@.len(),
            forall|i: int| 0 <= i < r@.len() ==> Some((#[trigger] r@[i])@) == self.key_fn().spec_key(self@[i]),
    {
        self.keys.as_slice()
    }

    /// Consumes the vector and returns its elements.
    pub fn into_vec(self) -> (r: Vec<V>)
        ensures
            r@ == self@,
    {
        self.vec
    }

    /// Creates a new [`Uvec`] with a key-generating function.
    pub fn with_key(key: F) -> (r: Self)
        ensures
            r.wf(),
            r@ == Seq::<V>::empty(),
            r.key_fn() == key,
    {
        Uvec { keys: Vec::new(), vec: Vec::new(), key }
    }
}

impl<V: UniqueKey> Uvec<V, V, Identity> {
    /// Creates a new [`Uvec`] whose elements are their own keys.
    pub fn new() -> (r: Self)
        ensures
            r.wf(),
            r@ == Seq::<V>::empty(),
    {
        Uvec::with_key(Identity)
    }

    /// Creates a [`Uvec`] whose elements are their own keys, from the first occurrence of each of `items`.
    pub fn from_vec(items: Vec<V>) -> (r: Self)
        ensures
            r.wf(),
            r@ == extended(Identity, Seq::<V>::empty(), items@),
    {
        let mut r = Uvec::new();
        r.extend(items);
        r
    }
}

impl<K: UniqueKey, V, F: KeyFn<K, V>> std::ops::Deref for Uvec<K, V, F> {
    type Target = [V];

    fn deref(&self) -> &[V] {
        self.vec.as_slice()
    }
}

impl<K: UniqueKey, V, F: KeyFn<K, V>> AsRef<[V]> for Uvec<K, V, F> {
    fn as_ref(&self) -> &[V] {
        self.vec.as_slice()
    }
}

impl<K: UniqueKey, V, F: KeyFn<K, V>> AsRef<Vec<V>> for Uvec<K, V, F> {
    fn as_ref(&self) -> &Vec<V> {
        &self.vec
    }
}

impl<K: UniqueKey, V, F: KeyFn<K, V>> IntoIterator for Uvec<K, V, F> {
    type Item = V;
    type IntoIter = std::vec::IntoIter<V>;

    fn into_iter(self) -> std::vec::IntoIter<V> {
        self.vec.into_iter()
    }
}

impl<'a, K: UniqueKey, V, F: KeyFn<K, V>> IntoIterator for &'a Uvec<K, V, F> {
    type Item = &'a V;
    type IntoIter = std::slice::Iter<'a, V>;

    fn into_iter(self) -> std::slice::Iter<'a, V> {
        self.vec.iter()
    }
}

impl<V: UniqueKey> Default for Uvec<V, V, Identity> {
    fn default() -> (r: Self)
        ensures
            r.wf(),
            r@ == Seq::<V>::empty(),
    {
        Uvec::new()
    }
}


impl<K: UniqueKey, V: PartialEq + PartialEqSpec, F: KeyFn<K, V>> PartialEq for Uvec<K, V, F> {
    fn eq(&self, other: &Self) -> (r: bool) {
        self.vec == other.vec
    }
}

impl<K: UniqueKey, V: PartialEq + PartialEqSpec, F: KeyFn<K, V>> vstd::std_specs::cmp::PartialEqSpecImpl for Uvec<K, V, F> {
    open spec fn obeys_eq_spec() -> bool {
        V::obeys_eq_spec()
    }

    open spec fn eq_spec(&self, other: &Self) -> bool {
        &&& self@.len() == other@.len()
        &&& forall|i: int| 0 <= i < self@.len() ==> (#[trigger] self@[i]).eq_spec(&other@[i])
    }
}

impl<K: UniqueKey, V: Eq + PartialEqSpec, F: KeyFn<K, V>> Eq for Uvec<K, V, F> {

}


/// The lexicographic comparison of `a` and `b`: the first comparison of elements at the same position that
/// is not `Equal`, or else the comparison of the lengths.
pub open spec fn lex_cmp<V: PartialOrdSpec>(a: Seq<V>, b: Seq<V>) -> Option<std::cmp::Ordering>
    decreases a.len(),
{
    if a.len() == 0 {
        if b.len() == 0 {
            Some(std::cmp::Ordering::Equal)
        } else {
            Some(std::cmp::Ordering::Less)
        }
    } else if b.len() == 0 {
        Some(std::cmp::Ordering::Greater)
    } else {
        match a[0].partial_cmp_spec(&b[0]) {
            Some(std::cmp::Ordering::Equal) => lex_cmp(a.skip(1), b.skip(1)),
            o => o,
        }
    }
}

impl<K: UniqueKey, V: PartialOrd + PartialEqSpec + PartialOrdSpec, F: KeyFn<K, V>> PartialOrd for Uvec<K, V, F> {
    fn partial_cmp(&self, other: &Self) -> (r: Option<std::cmp::Ordering>) {
        let n = self.vec.len();
        let m = other.vec.len();
        let mut i: usize = 0;
        assert(self@.skip(0) =~= self@ && other@.skip(0) =~= other@);
        while i < n && i < m
            invariant
                n == self@.len(),
                m == other@.len(),
                i <= n,
                i <= m,
                V::obeys_partial_cmp_spec() ==> lex_cmp(self@, other@) == lex_cmp(
                    self@.skip(i as int),
                    other@.skip(i as int),
                ),
            decreases n - i,
        {
            let o = self.vec[i].partial_cmp(&other.vec[i]);
            proof {
                let a = self@.skip(i as int);
                let b = other@.skip(i as int);
                assert(a[0] == self@[i as int] && b[0] == other@[i as int]);
                assert(a.skip(1) =~= self@.skip(i + 1));
                assert(b.skip(1) =~= other@.skip(i + 1));
            }
            match o {
                Some(std::cmp::Ordering::Equal) => {},
                _ => {
                    return o;
                },
            }
            i = i + 1;
        }
        if i < n {
            Some(std::cmp::Ordering::Greater)
        } else if i < m {
            Some(std::cmp::Ordering::Less)
        } else {
            Some(std::cmp::Ordering::Equal)
        }
    }
}

impl<K: UniqueKey, V: PartialOrd + PartialEqSpec + PartialOrdSpec, F: KeyFn<K, V>> vstd::std_specs::cmp::PartialOrdSpecImpl for Uvec<K, V, F> {
    open spec fn obeys_partial_cmp_spec() -> bool {
        V::obeys_partial_cmp_spec()
    }

    open spec fn partial_cmp_spec(&self, other: &Self) -> Option<std::cmp::Ordering> {
        lex_cmp(self@, other@)
    }
}

} // verus!
