//! A fixed-capacity store with stable, ever-increasing external indices.
//!
//! Items are pushed at external indices `0, 1, 2, ...` and live in a ring of
//! physical slots. When the ring is full, a push overwrites the oldest slot:
//! old external indices deterministically stop being retained, but an index
//! never changes meaning. The full push history is kept as the ghost view of
//! the store, so contracts can speak about every record ever written.

use vstd::prelude::*;

verus! {

/// A simple fake vector. It has a fixed-size allocation and overwrites the
/// oldest entries when it runs out of space.
///
/// The view `self@` is the sequence of every item ever pushed, indexed by
/// external index; only the last `capacity` of them are still readable.
pub struct FakeVec<T> {
    next: usize,
    internal: Vec<T>,
    hist: Ghost<Seq<T>>,
}

impl<T> View for FakeVec<T> {
    type V = Seq<T>;

    closed spec fn view(&self) -> Seq<T> {
        self.hist@
    }
}

impl<T> FakeVec<T> {
    /// The number of physical slots.
    pub closed spec fn spec_capacity(&self) -> nat {
        self.internal@.len()
    }

    /// An external index is retained while it is among the last
    /// `capacity` pushes.
    pub open spec fn spec_retained(&self, index: int) -> bool {
        &&& 0 <= index < self@.len()
        &&& index + self.spec_capacity() >= self@.len()
    }

    /// The store is well formed: the ghost history has one entry per push,
    /// and every retained index finds its item in its ring slot.
    pub closed spec fn wf(&self) -> bool {
        &&& self.spec_capacity() >= 1
        &&& self@.len() == self.next
        &&& forall|i: int|
            self.spec_retained(i) ==> self.internal@[i % (self.spec_capacity() as int)]
                == #[trigger] self@[i]
    }

    /// Get the capacity of the underlying allocation.
    pub fn capacity(&self) -> (c: usize)
        ensures
            c == self.spec_capacity(),
    {
        self.internal.len()
    }

    /// The external index of the most recent push.
    pub fn latest(&self) -> (l: usize)
        requires
            self.wf(),
            self@.len() >= 1,
        ensures
            l == self@.len() - 1,
    {
        self.next - 1
    }

    /// The physical slot that backs an external index.
    fn to_internal_index(&self, index: usize) -> (r: usize)
        requires
            self.spec_capacity() >= 1,
        ensures
            r == index as int % self.spec_capacity() as int,
    {
        index % self.internal.len()
    }

    /// Recover the external index that currently occupies a physical slot.
    ///
    /// When the store has not wrapped yet, only slots below `next` hold
    /// pushed items, so `index` must lie below `next`.
    pub fn to_external_index(&self, index: usize) -> (r: usize)
        requires
            self.wf(),
            self@.len() >= 1,
            index < self.spec_capacity(),
            self@.len() >= self.spec_capacity() || index < self@.len(),
        ensures
            self.spec_retained(r as int),
            r as int % self.spec_capacity() as int == index,
    {
        let ghost cap = self.spec_capacity() as int;
        let latest = self.latest();
        let internal_latest = self.to_internal_index(latest);
        let ghost q = latest as int / cap;
        proof {
            vstd::arithmetic::div_mod::lemma_fundamental_div_mod(latest as int, cap);
            assert(latest as int == cap * q + internal_latest);
            if self@.len() < self.spec_capacity() {
                // before the first wrap the write head is the highest index
                lemma_mod_small(latest as int, cap);
            }
        }
        if index > internal_latest {
            // the slot lies ahead of the write head, so it was filled one
            // lap earlier; this can only happen once the ring has wrapped
            proof {
                assert(self@.len() >= self.spec_capacity());
                lemma_wrapped_head_lap(
                    latest as int,
                    internal_latest as int,
                    q,
                    index as int,
                    cap,
                );
                vstd::arithmetic::div_mod::lemma_mod_multiples_vanish(
                    q - 1,
                    index as int,
                    cap,
                );
                assert(cap * (q - 1) == cap * q - cap) by (nonlinear_arith);
                lemma_mod_small(index as int, cap);
            }
            latest - internal_latest - (self.internal.len() - index)
        } else {
            proof {
                vstd::arithmetic::div_mod::lemma_mod_multiples_vanish(q, index as int, cap);
                lemma_mod_small(index as int, cap);
            }
            latest - (internal_latest - index)
        }
    }

    /// Whether the item at an external index is still retained.
    fn valid(&self, index: usize) -> (r: bool)
        requires
            self.wf(),
            self@.len() >= 1,
        ensures
            r == self.spec_retained(index as int),
    {
        let latest = self.next - 1;
        index <= latest && (latest < self.internal.len() || index > latest - self.internal.len())
    }

    /// Push an item, returning its external index.
    pub fn push(&mut self, item: T) -> (index: usize)
        requires
            old(self).wf(),
            old(self)@.len() < usize::MAX,
        ensures
            final(self).wf(),
            final(self)@ == old(self)@.push(item),
            final(self).spec_capacity() == old(self).spec_capacity(),
            index == old(self)@.len(),
    {
        let ghost cap = self.spec_capacity() as int;
        let index = self.next;
        let slot = self.to_internal_index(index);
        self.internal[slot] = item;
        self.hist = Ghost(self.hist@.push(item));
        self.next = self.next + 1;
        proof {
            assert forall|i: int| self.spec_retained(i) implies self.internal@[i % cap]
                == self@[i] by {
                if i < index {
                    if i % cap == index as int % cap {
                        lemma_mod_injective_in_window(i, index as int, cap);
                    }
                    assert(old(self).spec_retained(i));
                    assert(old(self).internal@[i % cap] == old(self)@[i]);
                }
            }
        }
        index
    }

    /// Get an item at an external index, if it is still retained.
    pub fn get(&self, index: usize) -> (r: Option<&T>)
        requires
            self.wf(),
            self@.len() >= 1,
        ensures
            match r {
                Some(item) => self.spec_retained(index as int) && *item == self@[index as int],
                None => !self.spec_retained(index as int),
            },
    {
        if !self.valid(index) {
            None
        } else {
            let slot = self.to_internal_index(index);
            Some(&self.internal[slot])
        }
    }
}

impl<T: Copy> FakeVec<T> {
    /// Rebuild a store from a persisted snapshot: the physical slots and
    /// the push counter. The reconstructed history reads every index
    /// through its ring slot, so exactly the retained window is
    /// meaningful.
    pub fn from_parts(internal: Vec<T>, next: usize) -> (r: FakeVec<T>)
        requires
            internal@.len() >= 1,
        ensures
            r.wf(),
            r.spec_capacity() == internal@.len(),
            r@.len() == next,
            forall|i: int|
                r.spec_retained(i) ==> #[trigger] r@[i] == internal@[
                    i % (internal@.len() as int)
                ],
    {
        let ghost cap = internal@.len() as int;
        let ghost hist = Seq::new(next as nat, |i: int| internal@[i % cap]);
        FakeVec { next, internal, hist: Ghost(hist) }
    }

    /// Create an empty store backed by `capacity` physical slots, each
    /// initially holding `fill`.
    pub fn new(capacity: usize, fill: T) -> (r: FakeVec<T>)
        requires
            capacity >= 1,
        ensures
            r.wf(),
            r@ == Seq::<T>::empty(),
            r.spec_capacity() == capacity,
    {
        let mut internal: Vec<T> = Vec::new();
        while internal.len() < capacity
            invariant
                internal@.len() <= capacity,
            decreases capacity - internal@.len(),
        {
            internal.push(fill);
        }
        FakeVec { next: 0, internal, hist: Ghost(Seq::empty()) }
    }

    /// Find the external index of the first physical slot whose item
    /// matches the filter. Slots that do not hold a pushed item are skipped.
    pub fn position<F: Fn(T) -> bool>(&self, f: &F) -> (r: Option<usize>)
        requires
            self.wf(),
            self@.len() >= 1,
            forall|t: T| #[trigger] f.requires((t,)),
        ensures
            match r {
                Some(e) => self.spec_retained(e as int) && call_ensures(
                    *f,
                    (self@[e as int],),
                    true,
                ) && forall|i: int|
                    self.spec_retained(i) && i % (self.spec_capacity() as int) < e as int % (
                    self.spec_capacity() as int) ==> call_ensures(
                        *f,
                        (#[trigger] self@[i],),
                        false,
                    ),
                None => forall|i: int|
                    self.spec_retained(i) ==> call_ensures(*f, (#[trigger] self@[i],), false),
            },
    {
        let ghost cap = self.spec_capacity() as int;
        let cap_exec = self.internal.len();
        let mut k: usize = 0;
        while k < cap_exec
            invariant
                self.wf(),
                self@.len() >= 1,
                cap_exec == cap == self.spec_capacity(),
                k <= cap_exec,
                forall|t: T| #[trigger] f.requires((t,)),
                forall|i: int|
                    self.spec_retained(i) && i % cap < k ==> call_ensures(
                        *f,
                        (#[trigger] self@[i],),
                        false,
                    ),
            decreases cap_exec - k,
        {
            if self.next >= cap_exec || k < self.next {
                if f(self.internal[k]) {
                    let e = self.to_external_index(k);
                    return Some(e);
                }
            }
            proof {
                assert forall|i: int| self.spec_retained(i) && i % cap < k + 1 implies
                    call_ensures(*f, (self@[i],), false) by {
                    if i % cap == k {
                        // a retained index with slot k exists only if slot k
                        // holds a pushed item
                        lemma_mod_bounds(i, cap);
                        if self@.len() < cap {
                            lemma_mod_small(i, cap);
                        }
                    }
                }
            }
            k = k + 1;
        }
        None
    }

    /// Find the external index of the first physical slot holding an item
    /// equal to `value`.
    pub fn find(&self, value: &T) -> (r: Option<usize>) where
        T: PartialEq + vstd::std_specs::cmp::PartialEqSpec,
        requires
            self.wf(),
            self@.len() >= 1,
            T::obeys_eq_spec(),
        ensures
            match r {
                Some(e) => self.spec_retained(e as int) && self@[e as int].eq_spec(value)
                    && forall|i: int|
                    self.spec_retained(i) && i % (self.spec_capacity() as int) < e as int % (
                    self.spec_capacity() as int) ==> !(#[trigger] self@[i]).eq_spec(value),
                None => forall|i: int|
                    self.spec_retained(i) ==> !(#[trigger] self@[i]).eq_spec(value),
            },
    {
        let ghost cap = self.spec_capacity() as int;
        let cap_exec = self.internal.len();
        let mut k: usize = 0;
        while k < cap_exec
            invariant
                self.wf(),
                self@.len() >= 1,
                cap_exec == cap == self.spec_capacity(),
                k <= cap_exec,
                T::obeys_eq_spec(),
                forall|i: int|
                    self.spec_retained(i) && i % cap < k ==> !(#[trigger] self@[i]).eq_spec(
                        value,
                    ),
            decreases cap_exec - k,
        {
            if self.next >= cap_exec || k < self.next {
                if self.internal[k] == *value {
                    let e = self.to_external_index(k);
                    return Some(e);
                }
            }
            proof {
                assert forall|i: int| self.spec_retained(i) && i % cap < k + 1 implies !self@[
                    i
                ].eq_spec(value) by {
                    if i % cap == k {
                        lemma_mod_bounds(i, cap);
                        if self@.len() < cap {
                            lemma_mod_small(i, cap);
                        }
                    }
                }
            }
            k = k + 1;
        }
        None
    }
}

/// `a % n` lies in `[0, n)` for positive `n` and nonnegative `a`.
proof fn lemma_mod_bounds(a: int, n: int)
    requires
        n >= 1,
        a >= 0,
    ensures
        0 <= a % n < n,
{
}

/// A nonnegative value below the modulus is its own remainder.
proof fn lemma_mod_small(a: int, n: int)
    requires
        n >= 1,
        0 <= a < n,
    ensures
        a % n == a,
{
    vstd::arithmetic::div_mod::lemma_small_mod(a as nat, n as nat);
}



/// Pushing one item more than the capacity makes external index 0
/// unreachable, while every later index up to the capacity stays
/// reachable.
pub proof fn lemma_window_after_overflow<T>(v: FakeVec<T>)
    requires
        v.wf(),
        v@.len() == v.spec_capacity() + 1,
    ensures
        !v.spec_retained(0),
        forall|i: int| 1 <= i <= v.spec_capacity() ==> v.spec_retained(i),
{
}

/// When a slot ahead of the write head holds an item, the ring has already
/// gone around at least once.
proof fn lemma_wrapped_head_lap(l: int, il: int, q: int, idx: int, cap: int)
    requires
        cap >= 1,
        q >= 0,
        l == cap * q + il,
        l >= cap - 1,
        0 <= il < cap,
        il < idx < cap,
    ensures
        q >= 1,
{
    if q == 0 {
        assert(l == il);
    }
}

/// Two indices closer together than the modulus share a remainder only if
/// they are equal.
proof fn lemma_mod_injective_in_window(i: int, j: int, n: int)
    requires
        n >= 1,
        0 <= i <= j,
        j - i < n,
        i % n == j % n,
    ensures
        i == j,
{
    vstd::arithmetic::div_mod::lemma_fundamental_div_mod(i, n);
    vstd::arithmetic::div_mod::lemma_fundamental_div_mod(j, n);
    let qi = i / n;
    let qj = j / n;
    assert(i == j) by (nonlinear_arith)
        requires
            i == n * qi + i % n,
            j == n * qj + j % n,
            i % n == j % n,
            0 <= j - i < n,
            n >= 1,
    ;
}

} // verus!
