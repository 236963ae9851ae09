//! The growable-array container. It owns its elements, keeps an explicit
//! capacity, and grows by the next-power-of-two policy of [`crate::growth`].
//!
//! The contracts speak of two observables: the contents, as the `Seq<T>`
//! view, and the capacity, as [`MeVec::spec_capacity`]. Capacity never
//! shrinks except through [`MeVec::shrink_to_fit`], and after any growth it
//! is the next power of two at or above the required minimum.

use vstd::prelude::*;

use crate::growth::{
    growth_limit, is_pow2, lemma_next_pow2_bounds, next_pow2, next_power_of_two, pushed_cap,
};
use crate::model::{clamp_del, clamp_off, filter_by, splice_len, spliced};

verus! {

/// The allocation strategy used when none is supplied.
#[derive(Clone, Copy)]
pub struct DefaultAlloc;

/// A growable array with an explicit capacity and a pluggable allocation
/// strategy `A`. The strategy is fixed for the container's whole life.
pub struct MeVec<T, A = DefaultAlloc> {
    data: Vec<T>,
    cap: usize,
    alloc: A,
}

impl<T, A> View for MeVec<T, A> {
    type V = Seq<T>;

    closed spec fn view(&self) -> Seq<T> {
        self.data@
    }
}

impl<T, A> MeVec<T, A> {
    /// The number of element slots the container currently accounts for.
    pub closed spec fn spec_capacity(&self) -> usize {
        self.cap
    }

    /// The allocation strategy the container was built with.
    pub closed spec fn spec_allocator(&self) -> A {
        self.alloc
    }

    /// Well-formedness: the live elements always fit in the capacity.
    pub open spec fn inv(&self) -> bool {
        self@.len() <= self.spec_capacity()
    }
}

impl<T> MeVec<T, DefaultAlloc> {
    /// Creates a new empty container; no slots are reserved.
    pub fn new() -> (r: Self)
        ensures
            r.inv(),
            r@ == Seq::<T>::empty(),
            r.spec_capacity() == 0,
    {
        MeVec { data: Vec::new(), cap: 0, alloc: DefaultAlloc }
    }

    /// Creates an empty container with room for at least `max(capacity, 1)`
    /// elements.
    pub fn with_capacity(capacity: usize) -> (r: Self)
        ensures
            r.inv(),
            r@ == Seq::<T>::empty(),
            r.spec_capacity() == if capacity == 0 {
                1usize
            } else {
                capacity
            },
    {
        Self::with_capacity_in(capacity, DefaultAlloc)
    }

    /// Builds a container by pushing the given elements one at a time,
    /// growing as each push demands.
    pub fn from_iter(items: Vec<T>) -> (r: Self)
        requires
            items@.len() <= growth_limit(),
        ensures
            r.inv(),
            r@ == items@,
            r.spec_capacity() as nat == pushed_cap(0, 0, items@.len()),
    {
        let ghost all = items@;
        let mut vec = Self::new();
        vec.extend(items);
        proof {
            assert(vec@ =~= all);
        }
        vec
    }

    /// Builds a container holding `count` clones of `value`, reserving all
    /// the room up front.
    pub fn new_repeated(value: T, count: usize) -> (r: Self)
        where
            T: Clone,
        requires
            count <= growth_limit(),
        ensures
            r.inv(),
            r@.len() == count,
            forall|i: int| 0 <= i < count ==> cloned::<T>(value, #[trigger] r@[i]),
            r.spec_capacity() as nat == if count == 0 {
                0nat
            } else {
                next_pow2(count as nat)
            },
    {
        let mut vec = Self::new();
        vec.reserve(count);
        let mut i: usize = 0;
        while i < count
            invariant
                i <= count,
                vec@.len() == i,
                forall|j: int| 0 <= j < i ==> cloned::<T>(value, #[trigger] vec@[j]),
                vec.spec_capacity() as nat == if count == 0 {
                    0nat
                } else {
                    next_pow2(count as nat)
                },
                count <= vec.spec_capacity() || count == 0,
            decreases count - i,
        {
            let c = value.clone();
            vec.data.push(c);
            i = i + 1;
        }
        vec
    }
}

impl<T, A> MeVec<T, A> {
    /// Creates a new empty container that will use the given allocation
    /// strategy.
    pub fn new_in(alloc: A) -> (r: Self)
        ensures
            r.inv(),
            r@ == Seq::<T>::empty(),
            r.spec_capacity() == 0,
            r.spec_allocator() == alloc,
    {
        MeVec { data: Vec::new(), cap: 0, alloc }
    }

    /// Creates an empty container with room for at least `max(capacity, 1)`
    /// elements, using the given allocation strategy.
    pub fn with_capacity_in(capacity: usize, alloc: A) -> (r: Self)
        ensures
            r.inv(),
            r@ == Seq::<T>::empty(),
            r.spec_capacity() == if capacity == 0 {
                1usize
            } else {
                capacity
            },
            r.spec_allocator() == alloc,
    {
        let cap = if capacity < 1 {
            1
        } else {
            capacity
        };
        MeVec { data: Vec::new(), cap, alloc }
    }

    /// The allocation strategy this container was built with.
    pub fn allocator(&self) -> (r: &A)
        ensures
            *r == self.spec_allocator(),
    {
        &self.alloc
    }

    /// The number of element slots currently accounted for.
    pub fn capacity(&self) -> (r: usize)
        ensures
            r == self.spec_capacity(),
    {
        self.cap
    }

    /// The number of live elements.
    pub fn len(&self) -> (r: usize)
        ensures
            r == self@.len(),
    {
        self.data.len()
    }

    /// True when the container holds no elements.
    pub fn is_empty(&self) -> (r: bool)
        ensures
            r == (self@.len() == 0),
    {
        self.data.len() == 0
    }

    /// Borrows the live elements.
    pub fn as_slice(&self) -> (r: &[T])
        ensures
            r@ == self@,
    {
        self.data.as_slice()
    }

    /// Guarantees room for at least `additional` more elements. When growth
    /// is needed, the new capacity is the next power of two at or above
    /// `len + additional`; otherwise nothing changes.
    pub fn reserve(&mut self, additional: usize)
        requires
            old(self).inv(),
            old(self)@.len() + additional <= usize::MAX,
            old(self)@.len() + additional > old(self).spec_capacity() ==> old(self)@.len()
                + additional <= growth_limit(),
        ensures
            final(self).inv(),
            final(self)@ == old(self)@,
            final(self).spec_allocator() == old(self).spec_allocator(),
            old(self)@.len() + additional <= old(self).spec_capacity() ==> final(self).spec_capacity() == old(self).spec_capacity(),
            old(self)@.len() + additional > old(self).spec_capacity() ==> final(self).spec_capacity() as nat == next_pow2((old(self)@.len() + additional) as nat),
            final(self).spec_capacity() >= old(self).spec_capacity(),
            final(self).spec_capacity() >= old(self)@.len() + additional,
    {
        let len = self.data.len();
        if len + additional > self.cap {
            let new_cap = next_power_of_two(len + additional);
            proof {
                lemma_next_pow2_bounds((len + additional) as nat);
            }
            self.cap = new_cap;
        }
    }

    /// Same as [`MeVec::reserve`]: an exact-sizing request is still served
    /// by the power-of-two growth policy.
    pub fn reserve_exact(&mut self, additional: usize)
        requires
            old(self).inv(),
            old(self)@.len() + additional <= usize::MAX,
            old(self)@.len() + additional > old(self).spec_capacity() ==> old(self)@.len()
                + additional <= growth_limit(),
        ensures
            final(self).inv(),
            final(self)@ == old(self)@,
            final(self).spec_allocator() == old(self).spec_allocator(),
            old(self)@.len() + additional <= old(self).spec_capacity() ==> final(self).spec_capacity() == old(self).spec_capacity(),
            old(self)@.len() + additional > old(self).spec_capacity() ==> final(self).spec_capacity() as nat == next_pow2((old(self)@.len() + additional) as nat),
            final(self).spec_capacity() >= old(self).spec_capacity(),
            final(self).spec_capacity() >= old(self)@.len() + additional,
    {
        self.reserve(additional)
    }

    /// Appends one element, growing by the power-of-two policy only when the
    /// container is full, and returns a reference to the new slot.
    pub fn push(&mut self, value: T) -> (r: &mut T)
        requires
            old(self).inv(),
            old(self)@.len() < usize::MAX,
            old(self)@.len() == old(self).spec_capacity() ==> old(self)@.len() + 1
                <= growth_limit(),
        ensures
            *r == value,
            final(self).inv(),
            final(self)@ == old(self)@.push(*final(r)),
            final(self).spec_allocator() == old(self).spec_allocator(),
            old(self)@.len() < old(self).spec_capacity() ==> final(self).spec_capacity() == old(self).spec_capacity(),
            old(self)@.len() == old(self).spec_capacity() ==> final(self).spec_capacity()
                as nat == next_pow2((old(self)@.len() + 1) as nat),
            final(self).spec_capacity() >= old(self).spec_capacity(),
    {
        if self.data.len() == self.cap {
            self.reserve(1);
        }
        let i = self.data.len();
        self.data.push(value);
        &mut self.data[i]
    }

    /// Appends every element of `items` in order, pushing one at a time and
    /// growing as each push demands.
    pub fn extend(&mut self, items: Vec<T>)
        requires
            old(self).inv(),
            old(self)@.len() + items@.len() <= growth_limit(),
        ensures
            final(self).inv(),
            final(self)@ == old(self)@ + items@,
            final(self).spec_allocator() == old(self).spec_allocator(),
            final(self).spec_capacity() >= old(self).spec_capacity(),
            final(self).spec_capacity() == old(self).spec_capacity() || is_pow2(
                final(self).spec_capacity() as nat,
            ),
            final(self).spec_capacity() as nat == pushed_cap(
                old(self)@.len(),
                old(self).spec_capacity() as nat,
                items@.len(),
            ),
    {
        let ghost orig = *self;
        let ghost all = items@;
        let ghost mut done: int = 0;
        let mut items = items;
        while items.len() > 0
            invariant
                self.inv(),
                0 <= done <= all.len(),
                items@ == all.skip(done),
                self@ == orig@ + all.take(done),
                orig@.len() + all.len() <= growth_limit(),
                self.spec_allocator() == orig.spec_allocator(),
                self.spec_capacity() >= orig.spec_capacity(),
                self.spec_capacity() == orig.spec_capacity() || is_pow2(
                    self.spec_capacity() as nat,
                ),
                pushed_cap(self@.len(), self.spec_capacity() as nat, (all.len() - done) as nat)
                    == pushed_cap(orig@.len(), orig.spec_capacity() as nat, all.len()),
            decreases items@.len(),
        {
            let x = items.remove(0);
            proof {
                assert(x == all[done]);
                assert(items@ =~= all.skip(done + 1));
            }
            let ghost before = *self;
            self.push(x);
            proof {
                done = done + 1;
                assert(self@ =~= orig@ + all.take(done));
                if before@.len() == before.spec_capacity() {
                    lemma_next_pow2_bounds((before@.len() + 1) as nat);
                }
            }
        }
        proof {
            assert(all.take(done) =~= all);
        }
    }

    /// Drops every live element and resets the length to zero; the capacity
    /// is untouched.
    pub fn clear(&mut self)
        requires
            old(self).inv(),
        ensures
            final(self).inv(),
            final(self)@ == Seq::<T>::empty(),
            final(self).spec_capacity() == old(self).spec_capacity(),
            final(self).spec_allocator() == old(self).spec_allocator(),
    {
        self.data.clear();
    }

    /// Cuts the length down to `new_len`, dropping the elements beyond it;
    /// a `new_len` at or above the current length changes nothing. The
    /// capacity is untouched either way.
    pub fn truncate(&mut self, new_len: usize)
        requires
            old(self).inv(),
        ensures
            final(self).inv(),
            new_len >= old(self)@.len() ==> final(self)@ == old(self)@,
            new_len < old(self)@.len() ==> final(self)@ == old(self)@.take(new_len as int),
            final(self).spec_capacity() == old(self).spec_capacity(),
            final(self).spec_allocator() == old(self).spec_allocator(),
    {
        if new_len < self.data.len() {
            self.data.truncate(new_len);
        }
    }

    /// Overrides the length directly, without touching element slots. This
    /// container only ever accounts for initialized elements, so the new
    /// length must not exceed the current one; the surviving prefix is kept
    /// as is.
    pub fn set_len(&mut self, new_len: usize)
        requires
            old(self).inv(),
            new_len <= old(self)@.len(),
        ensures
            final(self).inv(),
            final(self)@ == old(self)@.take(new_len as int),
            final(self).spec_capacity() == old(self).spec_capacity(),
            final(self).spec_allocator() == old(self).spec_allocator(),
    {
        self.data.truncate(new_len);
    }

    /// Gives excess capacity back: afterwards the capacity is `max(len, 1)`,
    /// unless the container never allocated (capacity 0), which stays as is.
    /// The contents are untouched.
    pub fn shrink_to_fit(&mut self)
        requires
            old(self).inv(),
        ensures
            final(self).inv(),
            final(self)@ == old(self)@,
            final(self).spec_allocator() == old(self).spec_allocator(),
            old(self).spec_capacity() == 0 ==> final(self).spec_capacity() == 0,
            old(self).spec_capacity() > 0 ==> final(self).spec_capacity() == if old(self)@.len()
                == 0 {
                1int
            } else {
                old(self)@.len() as int
            },
            final(self).spec_capacity() <= old(self).spec_capacity(),
    {
        let len = self.data.len();
        if len < self.cap {
            let new_cap = if len < 1 {
                1
            } else {
                len
            };
            if new_cap < self.cap {
                self.cap = new_cap;
            }
        }
    }

    /// Borrows the live elements, in storage order. Iterate the returned
    /// slice to walk the container.
    pub fn iter(&self) -> (r: &[T])
        ensures
            r@ == self@,
    {
        self.data.as_slice()
    }

    /// Borrows the live elements mutably; their number cannot change through
    /// the borrow, only their values.
    pub fn as_mut_slice(&mut self) -> (r: &mut [T])
        requires
            old(self).inv(),
        ensures
            r@ == old(self)@,
            final(self)@ == final(r)@,
            final(self).spec_capacity() == old(self).spec_capacity(),
            final(self).spec_allocator() == old(self).spec_allocator(),
            final(r)@.len() == old(self)@.len() ==> final(self).inv(),
    {
        self.data.as_mut_slice()
    }

    /// Borrows the live elements mutably, in storage order. Iterate the
    /// returned slice to walk the container.
    pub fn iter_mut(&mut self) -> (r: &mut [T])
        requires
            old(self).inv(),
        ensures
            r@ == old(self)@,
            final(self)@ == final(r)@,
            final(self).spec_capacity() == old(self).spec_capacity(),
            final(self).spec_allocator() == old(self).spec_allocator(),
            final(r)@.len() == old(self)@.len() ==> final(self).inv(),
    {
        self.data.as_mut_slice()
    }

    /// Consumes the container and hands the live elements over unchanged;
    /// the container gives up all responsibility for them.
    pub fn leak(self) -> (r: Vec<T>)
        ensures
            r@ == self@,
    {
        self.data
    }

    /// Keeps only the elements the predicate accepts, in their original
    /// relative order, compacting in place. The decisions the predicate made
    /// are recorded by the witness sequence in the contract: the new contents
    /// are exactly the old ones filtered by those decisions.
    pub fn retain<F: Fn(&T) -> bool>(&mut self, f: F)
        requires
            old(self).inv(),
            forall|i: int| 0 <= i < old(self)@.len() ==> call_requires(f, (&old(self)@[i],)),
        ensures
            final(self).inv(),
            final(self).spec_capacity() == old(self).spec_capacity(),
            final(self).spec_allocator() == old(self).spec_allocator(),
            exists|d: Seq<bool>|
                {
                    &&& d.len() == old(self)@.len()
                    &&& (forall|i: int|
                        0 <= i < d.len() ==> call_ensures(f, (&old(self)@[i],), d[i]))
                    &&& final(self)@ == filter_by(old(self)@, d)
                },
    {
        let ghost orig = *self;
        let ghost mut d: Seq<bool> = Seq::empty();
        let ghost mut k: int = 0;
        if self.data.len() == 0 {
            proof {
                assert(filter_by(orig@, d) =~= orig@);
                assert(d.len() == orig@.len() && (forall|i: int|
                    0 <= i < d.len() ==> call_ensures(f, (&orig@[i],), d[i])) && self@
                    == filter_by(orig@, d));
            }
            return ;
        }
        let mut i: usize = 0;
        while i < self.data.len()
            invariant
                self.inv(),
                self.spec_capacity() == orig.spec_capacity(),
                self.spec_allocator() == orig.spec_allocator(),
                0 <= k <= orig@.len(),
                d.len() == k,
                forall|j: int| 0 <= j < k ==> call_ensures(f, (&orig@[j],), d[j]),
                forall|j: int| 0 <= j < orig@.len() ==> call_requires(f, (&orig@[j],)),
                self@ == filter_by(orig@.take(k), d) + orig@.skip(k),
                i == filter_by(orig@.take(k), d).len(),
            decreases orig@.len() - k,
        {
            proof {
                assert(self@[i as int] == orig@.skip(k)[0]);
            }
            let keep = f(&self.data[i]);
            if keep {
                i = i + 1;
            } else {
                self.data.remove(i);
            }
            proof {
                crate::model::lemma_filter_by_push(orig@.take(k), d, orig@[k], keep);
                assert(orig@.take(k).push(orig@[k]) =~= orig@.take(k + 1));
                d = d.push(keep);
                k = k + 1;
                assert(self@ =~= filter_by(orig@.take(k), d) + orig@.skip(k));
            }
        }
        proof {
            assert(orig@.take(k) =~= orig@);
            assert(self@ =~= filter_by(orig@, d));
            assert(d.len() == orig@.len() && (forall|i: int|
                0 <= i < d.len() ==> call_ensures(f, (&orig@[i],), d[i])) && self@ == filter_by(
                orig@,
                d,
            ));
        }
    }
}

impl<T: Copy, A> MeVec<T, A> {
    /// Sets the length to `new_len`: cut short when shrinking (no
    /// per-element cleanup is needed for plainly copyable elements), filled
    /// with copies of `value` when growing.
    pub fn resize(&mut self, new_len: usize, value: T)
        requires
            old(self).inv(),
            new_len > old(self).spec_capacity() ==> new_len <= growth_limit(),
        ensures
            final(self).inv(),
            new_len <= old(self)@.len() ==> final(self)@ == old(self)@.take(new_len as int),
            new_len > old(self)@.len() ==> final(self)@ == old(self)@ + Seq::new(
                (new_len - old(self)@.len()) as nat,
                |i: int| value,
            ),
            final(self).spec_allocator() == old(self).spec_allocator(),
            new_len <= old(self).spec_capacity() ==> final(self).spec_capacity() == old(self).spec_capacity(),
            new_len > old(self).spec_capacity() ==> final(self).spec_capacity() as nat
                == next_pow2(new_len as nat),
            final(self).spec_capacity() >= old(self).spec_capacity(),
    {
        let ghost orig = *self;
        if new_len > self.cap {
            let len = self.data.len();
            self.reserve(new_len - len);
        }
        if new_len > self.data.len() {
            while self.data.len() < new_len
                invariant
                    orig@.len() < new_len,
                    orig@.len() <= self@.len() <= new_len,
                    new_len <= self.spec_capacity(),
                    self@ == orig@ + Seq::new((self@.len() - orig@.len()) as nat, |i: int| value),
                    new_len <= orig.spec_capacity() ==> self.spec_capacity() == orig.spec_capacity(),
                    new_len > orig.spec_capacity() ==> self.spec_capacity() as nat == next_pow2(
                        new_len as nat,
                    ),
                    self.spec_capacity() >= orig.spec_capacity(),
                    self.spec_allocator() == orig.spec_allocator(),
                decreases new_len - self@.len(),
            {
                self.data.push(value);
                proof {
                    assert(self@ =~= orig@ + Seq::new(
                        (self@.len() - orig@.len()) as nat,
                        |i: int| value,
                    ));
                }
            }
        } else {
            self.data.truncate(new_len);
        }
    }

    /// Appends a copy of every element of `src`, reserving all the room up
    /// front (one growth at most).
    pub fn extend_from_slice(&mut self, src: &[T])
        requires
            old(self).inv(),
            old(self)@.len() + src@.len() <= usize::MAX,
            old(self)@.len() + src@.len() > old(self).spec_capacity() ==> old(self)@.len()
                + src@.len() <= growth_limit(),
        ensures
            final(self).inv(),
            final(self)@ == old(self)@ + src@,
            final(self).spec_allocator() == old(self).spec_allocator(),
            src@.len() == 0 ==> final(self).spec_capacity() == old(self).spec_capacity(),
            old(self)@.len() + src@.len() <= old(self).spec_capacity() ==> final(self).spec_capacity() == old(self).spec_capacity(),
            src@.len() > 0 && old(self)@.len() + src@.len() > old(self).spec_capacity() ==> final(self).spec_capacity() as nat == next_pow2((old(self)@.len() + src@.len()) as nat),
            final(self).spec_capacity() >= old(self).spec_capacity(),
    {
        let ghost orig = *self;
        let src_len = src.len();
        if src_len > 0 {
            self.reserve(src_len);
            let mut i: usize = 0;
            while i < src_len
                invariant
                    i <= src_len,
                    src_len == src@.len(),
                    self@ == orig@ + src@.take(i as int),
                    orig@.len() + src_len <= self.spec_capacity(),
                    orig@.len() + src_len <= orig.spec_capacity() ==> self.spec_capacity()
                        == orig.spec_capacity(),
                    orig@.len() + src_len > orig.spec_capacity() ==> self.spec_capacity() as nat
                        == next_pow2((orig@.len() + src_len) as nat),
                    self.spec_capacity() >= orig.spec_capacity(),
                    self.spec_allocator() == orig.spec_allocator(),
                decreases src_len - i,
            {
                let v = src[i];
                self.data.push(v);
                i = i + 1;
                proof {
                    assert(self@ =~= orig@ + src@.take(i as int));
                }
            }
            proof {
                assert(src@.take(src_len as int) =~= src@);
            }
        } else {
            proof {
                assert(self@ =~= orig@ + src@);
            }
        }
    }

    /// Appends a copy of the container's own elements at `range`, evaluated
    /// against the contents as they were before the call. A range that is
    /// empty or reaches past the end changes nothing.
    pub fn extend_from_within(&mut self, range: core::ops::Range<usize>)
        requires
            old(self).inv(),
            range.start < range.end && range.end <= old(self)@.len() ==> old(self)@.len() + (
            range.end - range.start) <= usize::MAX,
            range.start < range.end && range.end <= old(self)@.len() && old(self)@.len() + (
            range.end - range.start) > old(self).spec_capacity() ==> old(self)@.len() + (range.end
                - range.start) <= growth_limit(),
        ensures
            final(self).inv(),
            !(range.start < range.end && range.end <= old(self)@.len()) ==> final(self)@ == old(self)@ && final(self).spec_capacity() == old(self).spec_capacity(),
            range.start < range.end && range.end <= old(self)@.len() ==> final(self)@ == old(self)@ + old(self)@.subrange(range.start as int, range.end as int),
            final(self).spec_allocator() == old(self).spec_allocator(),
            final(self).spec_capacity() >= old(self).spec_capacity(),
            range.start < range.end && range.end <= old(self)@.len() && old(self)@.len() + (
            range.end - range.start) <= old(self).spec_capacity() ==> final(self).spec_capacity()
                == old(self).spec_capacity(),
            range.start < range.end && range.end <= old(self)@.len() && old(self)@.len() + (
            range.end - range.start) > old(self).spec_capacity() ==> final(self).spec_capacity()
                as nat == next_pow2((old(self)@.len() + (range.end - range.start)) as nat),
    {
        let ghost orig = *self;
        let start = range.start;
        let end = range.end;
        if start < end && end <= self.data.len() {
            let count = end - start;
            self.reserve(count);
            let mut i: usize = start;
            while i < end
                invariant
                    start <= i <= end,
                    end <= orig@.len(),
                    self@ == orig@ + orig@.subrange(start as int, i as int),
                    orig@.len() + (end - start) <= self.spec_capacity(),
                    self.spec_capacity() >= orig.spec_capacity(),
                    orig@.len() + (end - start) <= orig.spec_capacity() ==> self.spec_capacity()
                        == orig.spec_capacity(),
                    orig@.len() + (end - start) > orig.spec_capacity() ==> self.spec_capacity()
                        as nat == next_pow2((orig@.len() + (end - start)) as nat),
                    self.spec_allocator() == orig.spec_allocator(),
                decreases end - i,
            {
                let v = self.data[i];
                self.data.push(v);
                i = i + 1;
                proof {
                    assert(self@ =~= orig@ + orig@.subrange(start as int, i as int));
                }
            }
        }
    }

    /// The generalized splice: deletes the (clamped) elements at `range` and
    /// inserts a copy of `src` in their place, shifting the tail. Every size
    /// relationship between the deleted and inserted counts is handled, with
    /// at most one capacity growth; deleting and inserting nothing is a
    /// no-op.
    pub fn replace_impl(&mut self, range: core::ops::Range<usize>, src: &[T])
        requires
            old(self).inv(),
            old(self)@.len() + src@.len() <= usize::MAX,
            splice_len(
                old(self)@.len() as int,
                range.start as int,
                range.end as int,
                src@.len() as int,
            ) > old(self).spec_capacity() ==> splice_len(
                old(self)@.len() as int,
                range.start as int,
                range.end as int,
                src@.len() as int,
            ) <= growth_limit(),
        ensures
            final(self).inv(),
            final(self)@ == spliced(old(self)@, range.start as int, range.end as int, src@),
            final(self).spec_allocator() == old(self).spec_allocator(),
            final(self).spec_capacity() >= old(self).spec_capacity(),
            src@.len() <= clamp_del(
                old(self)@.len() as int,
                range.start as int,
                range.end as int,
            ) ==> final(self).spec_capacity() == old(self).spec_capacity(),
            src@.len() > clamp_del(old(self)@.len() as int, range.start as int, range.end as int)
                && splice_len(
                old(self)@.len() as int,
                range.start as int,
                range.end as int,
                src@.len() as int,
            ) <= old(self).spec_capacity() ==> final(self).spec_capacity() == old(self).spec_capacity(),
            src@.len() > clamp_del(old(self)@.len() as int, range.start as int, range.end as int)
                && splice_len(
                old(self)@.len() as int,
                range.start as int,
                range.end as int,
                src@.len() as int,
            ) > old(self).spec_capacity() ==> final(self).spec_capacity() as nat == next_pow2(
                splice_len(
                    old(self)@.len() as int,
                    range.start as int,
                    range.end as int,
                    src@.len() as int,
                ) as nat,
            ),
    {
        let ghost orig = *self;
        let dst_len = self.data.len();
        let src_len = src.len();
        let off = if range.start < dst_len {
            range.start
        } else {
            dst_len
        };
        let raw = if range.end > off {
            range.end - off
        } else {
            0
        };
        let avail = dst_len - off;
        let del_len = if raw < avail {
            raw
        } else {
            avail
        };
        proof {
            assert(off == clamp_off(orig@.len() as int, range.start as int));
            assert(del_len == clamp_del(orig@.len() as int, range.start as int, range.end as int));
        }
        if del_len == 0 && src_len == 0 {
            proof {
                assert(spliced(orig@, range.start as int, range.end as int, src@) =~= orig@);
            }
            return ;
        }
        if src_len > del_len {
            self.reserve(src_len - del_len);
        }
        let mut out: Vec<T> = Vec::new();
        let mut i: usize = 0;
        while i < off
            invariant
                i <= off <= orig@.len(),
                self@ == orig@,
                out@ == orig@.take(i as int),
            decreases off - i,
        {
            let v = self.data[i];
            out.push(v);
            i = i + 1;
            proof {
                assert(out@ =~= orig@.take(i as int));
            }
        }
        let mut j: usize = 0;
        while j < src_len
            invariant
                j <= src_len,
                src_len == src@.len(),
                off <= orig@.len(),
                self@ == orig@,
                out@ == orig@.take(off as int) + src@.take(j as int),
            decreases src_len - j,
        {
            let v = src[j];
            out.push(v);
            j = j + 1;
            proof {
                assert(out@ =~= orig@.take(off as int) + src@.take(j as int));
            }
        }
        let mut m: usize = off + del_len;
        while m < dst_len
            invariant
                off + del_len <= m <= dst_len,
                dst_len == orig@.len(),
                src_len == src@.len(),
                off <= orig@.len(),
                self@ == orig@,
                out@ == orig@.take(off as int) + src@ + orig@.subrange((off + del_len) as int, m as int),
            decreases dst_len - m,
        {
            let v = self.data[m];
            out.push(v);
            m = m + 1;
            proof {
                assert(out@ =~= orig@.take(off as int) + src@ + orig@.subrange(
                    (off + del_len) as int,
                    m as int,
                ));
            }
        }
        proof {
            assert(src@.take(src_len as int) =~= src@);
            assert(out@ =~= spliced(orig@, range.start as int, range.end as int, src@));
        }
        self.data = out;
    }

    /// Replaces the (clamped) elements at `range` with a copy of `src`; see
    /// [`MeVec::replace_impl`] for the splice semantics.
    pub fn replace_range(&mut self, range: core::ops::Range<usize>, src: &[T])
        requires
            old(self).inv(),
            old(self)@.len() + src@.len() <= usize::MAX,
            splice_len(
                old(self)@.len() as int,
                range.start as int,
                range.end as int,
                src@.len() as int,
            ) > old(self).spec_capacity() ==> splice_len(
                old(self)@.len() as int,
                range.start as int,
                range.end as int,
                src@.len() as int,
            ) <= growth_limit(),
        ensures
            final(self).inv(),
            final(self)@ == spliced(old(self)@, range.start as int, range.end as int, src@),
            final(self).spec_allocator() == old(self).spec_allocator(),
            final(self).spec_capacity() >= old(self).spec_capacity(),
    {
        self.replace_impl(range, src)
    }
}

impl<T> Default for MeVec<T, DefaultAlloc> {
    /// The same empty container as [`MeVec::new`].
    fn default() -> (r: Self)
        ensures
            r.inv(),
            r@ == Seq::<T>::empty(),
            r.spec_capacity() == 0,
    {
        Self::new()
    }
}

impl<T: Copy, A: Clone> Clone for MeVec<T, A> {
    /// An independent container with a copy of the live elements and a clone
    /// of the allocation strategy; its capacity is sized afresh for the
    /// length by the growth policy.
    fn clone(&self) -> (r: Self)
        ensures
            r@ == self@,
            r.inv(),
            cloned::<A>(self.spec_allocator(), r.spec_allocator()),
            self@.len() == 0 ==> r.spec_capacity() == 0,
            0 < self@.len() && self@.len() <= growth_limit() ==> r.spec_capacity() as nat
                == next_pow2(self@.len() as nat),
    {
        let n = self.data.len();
        let mut data: Vec<T> = Vec::new();
        let mut i: usize = 0;
        while i < n
            invariant
                i <= n,
                n == self@.len(),
                data@ == self@.take(i as int),
            decreases n - i,
        {
            let v = self.data[i];
            data.push(v);
            i = i + 1;
            proof {
                assert(data@ =~= self@.take(i as int));
            }
        }
        proof {
            assert(data@ =~= self@);
        }
        proof {
            lemma_next_pow2_bounds(n as nat);
        }
        let cap = if n == 0 {
            0
        } else if n <= usize::MAX / 2 + 1 {
            next_power_of_two(n)
        } else {
            n
        };
        MeVec { data, cap, alloc: self.alloc.clone() }
    }
}

} // verus!
