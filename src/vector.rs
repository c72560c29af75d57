//! A growable vector over a buffer of slots, with a consuming iterator and a
//! draining iterator.
use vstd::prelude::*;

use vstd::layout::size_of;

use crate::raw_vec::{
    grown_capacity, initial_capacity, lemma_take_back, lemma_take_front, live, values,
    RawValIter, RawVec, Slots,
};

verus! {

/// A contiguous growable sequence: slots `0 .. len` of the buffer hold its
/// values, in order.
pub struct Vec<T> {
    buf: RawVec<T>,
    len: usize,
}

impl<T> View for Vec<T> {
    type V = Seq<T>;

    closed spec fn view(&self) -> Seq<T> {
        values(self.buf@, 0, self.len as int)
    }
}

impl<T> Vec<T> {
    /// The number of values the buffer has room for.
    pub closed spec fn capacity(&self) -> nat {
        self.buf.capacity()
    }

    /// The length is within the capacity, and the buffer's first `len` slots
    /// hold values.
    pub closed spec fn wf(&self) -> bool {
        &&& self.buf.wf()
        &&& self.len <= self.buf.capacity() <= usize::MAX
        &&& live(self.buf@, 0, self.len as int)
    }

    /// Whether one more value can be pushed or inserted: either there is room
    /// for it, or the element type takes memory and the doubled capacity is
    /// addressable.
    pub open spec fn can_grow(&self) -> bool {
        ||| self@.len() < self.capacity()
        ||| size_of::<T>() != 0 && grown_capacity(self.capacity()) <= usize::MAX
    }

    /// The capacity after one more value is added.
    pub open spec fn capacity_after_add(&self) -> nat {
        if self@.len() < self.capacity() {
            self.capacity()
        } else {
            grown_capacity(self.capacity())
        }
    }

    /// An empty vector that has allocated nothing: its capacity is zero, or
    /// the largest count for an element type that takes no memory.
    pub fn new() -> (r: Self)
        ensures
            r.wf(),
            r@ == Seq::<T>::empty(),
            r.capacity() == initial_capacity::<T>(),
    {
        let r = Vec { buf: RawVec::new(), len: 0 };
        assert(r@ =~= Seq::<T>::empty());
        r
    }

    /// The number of values the buffer has room for.
    pub fn cap(&self) -> (r: usize)
        ensures
            r == self.capacity(),
    {
        self.buf.cap()
    }

    /// The number of values.
    pub fn len(&self) -> (r: usize)
        requires
            self.wf(),
        ensures
            r == self@.len(),
            r <= self.capacity(),
    {
        self.len
    }

    /// Grows the buffer if it is full, and makes sure slot `len` exists.
    fn reserve_one(&mut self)
        requires
            old(self).wf(),
            old(self).can_grow(),
        ensures
            final(self).wf(),
            final(self)@ == old(self)@,
            final(self).len == old(self).len,
            final(self).len < final(self).capacity(),
            final(self).len < final(self).buf@.len(),
            final(self).capacity() == old(self).capacity_after_add(),
    {
        if self.len == self.buf.cap() {
            self.buf.grow();
        }
        let ghost before = self.buf@;
        self.buf.ensure_slot(self.len);
        assert(forall|i: int| 0 <= i < self.len ==> self.buf@[i] == before[i]);
        assert(self@ =~= old(self)@);
    }

    /// Appends `elem` at the end, doubling the buffer first when it is full.
    pub fn push(&mut self, elem: T)
        requires
            old(self).wf(),
            old(self).can_grow(),
        ensures
            final(self).wf(),
            final(self)@ == old(self)@.push(elem),
            final(self).capacity() == old(self).capacity_after_add(),
            final(self)@.len() <= final(self).capacity(),
    {
        self.reserve_one();
        self.buf.write(self.len, elem);
        self.len = self.len + 1;
        assert(self@ =~= old(self)@.push(elem));
    }

    /// Removes and returns the last value; `None` when there is none.
    pub fn pop(&mut self) -> (r: Option<T>)
        requires
            old(self).wf(),
        ensures
            final(self).wf(),
            final(self).capacity() == old(self).capacity(),
            final(self)@.len() <= final(self).capacity(),
            old(self)@.len() == 0 ==> r.is_none() && final(self)@ == old(self)@,
            old(self)@.len() > 0 ==> {
                &&& r == Some(old(self)@.last())
                &&& final(self)@ == old(self)@.drop_last()
            },
    {
        if self.len == 0 {
            None
        } else {
            self.len = self.len - 1;
            let v = self.buf.read(self.len);
            assert(self@ =~= old(self)@.drop_last());
            Some(v)
        }
    }

    /// Inserts `elem` at `index`, moving the values from there on one slot
    /// towards the end.
    pub fn insert(&mut self, index: usize, elem: T)
        requires
            old(self).wf(),
            old(self).can_grow(),
            index <= old(self)@.len(),
        ensures
            final(self).wf(),
            final(self)@ == old(self)@.insert(index as int, elem),
            final(self).capacity() == old(self).capacity_after_add(),
            final(self)@.len() <= final(self).capacity(),
    {
        self.reserve_one();
        let ghost s0 = self.buf@;
        let ghost c0 = self.capacity();
        let len = self.len;
        let mut j: usize = len;
        while j > index
            invariant
                self.buf.wf(),
                self.buf.capacity() == c0,
                len < c0 <= usize::MAX,
                index <= j <= len,
                len == self.len,
                len < s0.len(),
                live(s0, 0, len as int),
                self.buf@.len() == s0.len(),
                forall|k: int| 0 <= k < j ==> self.buf@[k] == s0[k],
                forall|k: int| j < k <= len ==> self.buf@[k] == s0[k - 1],
            decreases j,
        {
            assert(s0[j - 1].is_some());
            let v = self.buf.read(j - 1);
            self.buf.write(j, v);
            j = j - 1;
        }
        self.buf.write(index, elem);
        self.len = len + 1;
        assert forall|k: int| 0 <= k < len + 1 implies #[trigger] self.buf@[k].is_some() by {
            if k < index {
                assert(s0[k].is_some());
            } else if k > index {
                assert(s0[k - 1].is_some());
            }
        }
        assert(old(self)@ =~= values(s0, 0, len as int));
        assert(self@ =~= old(self)@.insert(index as int, elem));
    }

    /// Removes and returns the value at `index`, moving the values after it
    /// one slot towards the front.
    pub fn remove(&mut self, index: usize) -> (r: T)
        requires
            old(self).wf(),
            index < old(self)@.len(),
        ensures
            final(self).wf(),
            r == old(self)@[index as int],
            final(self)@ == old(self)@.remove(index as int),
            final(self).capacity() == old(self).capacity(),
            final(self)@.len() <= final(self).capacity(),
    {
        let ghost s0 = self.buf@;
        let ghost c0 = self.capacity();
        let len = self.len;
        let r = self.buf.read(index);
        let mut j: usize = index;
        while j + 1 < len
            invariant
                self.buf.wf(),
                self.buf.capacity() == c0,
                len <= c0 <= usize::MAX,
                index <= j < len,
                len == self.len,
                len <= s0.len(),
                live(s0, 0, len as int),
                self.buf@.len() == s0.len(),
                forall|k: int| 0 <= k < index ==> self.buf@[k] == s0[k],
                forall|k: int| index <= k < j ==> self.buf@[k] == s0[k + 1],
                forall|k: int| j < k < len ==> self.buf@[k] == s0[k],
            decreases len - j,
        {
            assert(s0[j + 1].is_some());
            let v = self.buf.read(j + 1);
            self.buf.write(j, v);
            j = j + 1;
        }
        self.len = len - 1;
        assert forall|k: int| 0 <= k < len - 1 implies #[trigger] self.buf@[k].is_some() by {
            if k < index {
                assert(s0[k].is_some());
            } else {
                assert(s0[k + 1].is_some());
            }
        }
        assert(self@ =~= old(self)@.remove(index as int));
        r
    }

    /// The value at `index`.
    pub fn get(&self, index: usize) -> (r: &T)
        requires
            self.wf(),
            index < self@.len(),
        ensures
            *r == self@[index as int],
    {
        self.buf.get(index)
    }

    /// Replaces the value at `index` with `elem`.
    pub fn set(&mut self, index: usize, elem: T)
        requires
            old(self).wf(),
            index < old(self)@.len(),
        ensures
            final(self).wf(),
            final(self)@ == old(self)@.update(index as int, elem),
            final(self).capacity() == old(self).capacity(),
            final(self)@.len() <= final(self).capacity(),
    {
        self.buf.write(index, elem);
        assert(self@ =~= old(self)@.update(index as int, elem));
    }
}

/// A well-formed vector never holds more values than its capacity.
pub proof fn lemma_len_within_capacity<T>(v: &Vec<T>)
    requires
        v.wf(),
    ensures
        v@.len() <= v.capacity(),
{
}

/// Pushing a value and then popping gives that value back and leaves the
/// values as they were.
pub proof fn lemma_push_then_pop<T>(s: Seq<T>, elem: T)
    ensures
        s.push(elem).len() > 0,
        s.push(elem).last() == elem,
        s.push(elem).drop_last() == s,
{
    assert(s.push(elem).drop_last() =~= s);
}

/// Inserting a value at `index` and then removing at `index` gives that
/// value back and leaves the values as they were.
pub proof fn lemma_insert_then_remove<T>(s: Seq<T>, index: int, elem: T)
    requires
        0 <= index <= s.len(),
    ensures
        s.insert(index, elem)[index] == elem,
        s.insert(index, elem).remove(index) == s,
{
    assert(s.insert(index, elem).remove(index) =~= s);
}

/// Pushing the values of `xs` one by one onto an empty vector: if the first
/// `n - 1` pushes left `xs.take(n - 1)`, the `n`-th leaves `xs.take(n)`. So
/// after every push the length is the number of pushes and the values are in
/// the order pushed.
pub proof fn lemma_pushes_keep_order<T>(xs: Seq<T>, n: int)
    requires
        0 < n <= xs.len(),
    ensures
        xs.take(0) == Seq::<T>::empty(),
        xs.take(n - 1).push(xs[n - 1]) == xs.take(n),
        xs.take(n).len() == n,
{
    assert(xs.take(0) =~= Seq::<T>::empty());
    assert(xs.take(n - 1).push(xs[n - 1]) =~= xs.take(n));
}

/// Popping a vector that holds `xs` after `k` earlier pops: it holds
/// `xs.take(xs.len() - k)`, so the next pop gives `xs[xs.len() - 1 - k]` and
/// leaves one value fewer. Values come back in reverse order, and after
/// `xs.len()` pops the vector is empty, where a further pop gives `None`.
pub proof fn lemma_pops_reverse<T>(xs: Seq<T>, k: int)
    requires
        0 <= k < xs.len(),
    ensures
        xs.take(xs.len() - k).len() > 0,
        xs.take(xs.len() - k).last() == xs[xs.len() - 1 - k],
        xs.take(xs.len() - k).drop_last() == xs.take(xs.len() - k - 1),
        xs.take(xs.len() - xs.len()).len() == 0,
{
    assert(xs.take(xs.len() - k).drop_last() =~= xs.take(xs.len() - k - 1));
}

/// A consuming iterator over `s` that has taken `f` values from the front and
/// `b` from the back, in any interleaving, holds `s[f .. len - b]`. The next
/// step from the front gives `s[f]`, from the back `s[len - b - 1]`, and
/// either leaves the values in between; once `f + b` reaches the length
/// nothing is left. So every value is yielded exactly once.
pub proof fn lemma_two_ended<T>(s: Seq<T>, f: int, b: int)
    requires
        0 <= f,
        0 <= b,
        f + b <= s.len(),
    ensures
        s.subrange(f, s.len() - b).len() == s.len() - f - b,
        f + b < s.len() ==> {
            &&& s.subrange(f, s.len() - b).first() == s[f]
            &&& s.subrange(f, s.len() - b).drop_first() == s.subrange(f + 1, s.len() - b)
            &&& s.subrange(f, s.len() - b).last() == s[s.len() - b - 1]
            &&& s.subrange(f, s.len() - b).drop_last() == s.subrange(f, s.len() - b - 1)
        },
{
    if f + b < s.len() {
        assert(s.subrange(f, s.len() - b).drop_first() =~= s.subrange(f + 1, s.len() - b));
        assert(s.subrange(f, s.len() - b).drop_last() =~= s.subrange(f, s.len() - b - 1));
    }
}

impl<T> Vec<T> {
    /// Gives up the whole buffer to a consuming iterator over every value.
    pub fn into_iter(self) -> (r: IntoIter<T>)
        requires
            self.wf(),
        ensures
            r.wf(),
            r@ == self@,
    {
        let iter = RawValIter::new(self.len);
        IntoIter { slots: self.buf.into_slots(), iter }
    }

    /// Empties the vector at once and hands its values to a draining
    /// iterator, which borrows the buffer and moves them out of it.
    pub fn drain<'a>(&'a mut self) -> (r: Drain<'a, T>)
        requires
            old(self).wf(),
        ensures
            r.wf(),
            r@ == old(self)@,
            final(self).wf(),
            final(self)@ == Seq::<T>::empty(),
            final(self).capacity() == old(self).capacity(),
    {
        let iter = RawValIter::new(self.len);
        self.len = 0;
        Drain { slots: self.buf.slots_mut(), iter }
    }
}

/// Owns a vector's former buffer and moves its values out, from either end.
/// Values not taken are dropped with the buffer.
pub struct IntoIter<T> {
    slots: Slots<T>,
    iter: RawValIter,
}

impl<T> View for IntoIter<T> {
    type V = Seq<T>;

    /// The values not yet taken, front to back.
    closed spec fn view(&self) -> Seq<T> {
        values(self.slots@, self.iter.start(), self.iter.end())
    }
}

impl<T> IntoIter<T> {
    /// The cursor's range holds values.
    pub closed spec fn wf(&self) -> bool {
        live(self.slots@, self.iter.start(), self.iter.end())
    }

    /// Takes the front value; `None` once all are taken.
    pub fn next(&mut self) -> (r: Option<T>)
        requires
            old(self).wf(),
        ensures
            final(self).wf(),
            old(self)@.len() == 0 ==> r.is_none() && final(self)@ == old(self)@,
            old(self)@.len() > 0 ==> {
                &&& r == Some(old(self)@.first())
                &&& final(self)@ == old(self)@.drop_first()
            },
    {
        proof {
            if self.iter.start() < self.iter.end() {
                lemma_take_front(self.slots@, self.iter.start(), self.iter.end());
            }
        }
        self.iter.next(&mut self.slots)
    }

    /// Takes the back value; `None` once all are taken.
    pub fn next_back(&mut self) -> (r: Option<T>)
        requires
            old(self).wf(),
        ensures
            final(self).wf(),
            old(self)@.len() == 0 ==> r.is_none() && final(self)@ == old(self)@,
            old(self)@.len() > 0 ==> {
                &&& r == Some(old(self)@.last())
                &&& final(self)@ == old(self)@.drop_last()
            },
    {
        proof {
            if self.iter.start() < self.iter.end() {
                lemma_take_back(self.slots@, self.iter.start(), self.iter.end());
            }
        }
        self.iter.next_back(&mut self.slots)
    }

    /// The number of values not yet taken, as a lower and an upper bound.
    pub fn size_hint(&self) -> (r: (usize, Option<usize>))
        requires
            self.wf(),
        ensures
            r.0 == self@.len(),
            r.1 == Some(r.0),
    {
        let n = self.iter.size_hint();
        (n, Some(n))
    }
}

/// Moves the values out of a vector's buffer, which stays with the vector.
/// The vector's length is already zero, so values left untaken lie outside it:
/// they are never read again, and are dropped when a later write replaces
/// them or when the vector goes.
pub struct Drain<'a, T> {
    slots: &'a mut Slots<T>,
    iter: RawValIter,
}

impl<'a, T> View for Drain<'a, T> {
    type V = Seq<T>;

    /// The values not yet taken, front to back.
    closed spec fn view(&self) -> Seq<T> {
        values(self.slots@, self.iter.start(), self.iter.end())
    }
}

impl<'a, T> Drain<'a, T> {
    /// The cursor's range holds values.
    pub closed spec fn wf(&self) -> bool {
        live(self.slots@, self.iter.start(), self.iter.end())
    }

    /// Takes the front value; `None` once all are taken.
    pub fn next(&mut self) -> (r: Option<T>)
        requires
            old(self).wf(),
        ensures
            final(self).wf(),
            old(self)@.len() == 0 ==> r.is_none() && final(self)@ == old(self)@,
            old(self)@.len() > 0 ==> {
                &&& r == Some(old(self)@.first())
                &&& final(self)@ == old(self)@.drop_first()
            },
    {
        proof {
            if self.iter.start() < self.iter.end() {
                lemma_take_front(self.slots@, self.iter.start(), self.iter.end());
            }
        }
        self.iter.next(&mut *self.slots)
    }

    /// Takes the back value; `None` once all are taken.
    pub fn next_back(&mut self) -> (r: Option<T>)
        requires
            old(self).wf(),
        ensures
            final(self).wf(),
            old(self)@.len() == 0 ==> r.is_none() && final(self)@ == old(self)@,
            old(self)@.len() > 0 ==> {
                &&& r == Some(old(self)@.last())
                &&& final(self)@ == old(self)@.drop_last()
            },
    {
        proof {
            if self.iter.start() < self.iter.end() {
                lemma_take_back(self.slots@, self.iter.start(), self.iter.end());
            }
        }
        self.iter.next_back(&mut *self.slots)
    }

    /// The number of values not yet taken, as a lower and an upper bound.
    pub fn size_hint(&self) -> (r: (usize, Option<usize>))
        requires
            self.wf(),
        ensures
            r.0 == self@.len(),
            r.1 == Some(r.0),
    {
        let n = self.iter.size_hint();
        (n, Some(n))
    }
}

} // verus!
