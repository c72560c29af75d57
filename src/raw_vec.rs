//! A buffer of `T` slots, each live or empty, that grows by doubling.
use vstd::layout::size_of;
use vstd::prelude::*;

verus! {

/// The capacity that `grow` moves to from `cap`.
pub open spec fn grown_capacity(cap: nat) -> nat {
    if cap == 0 {
        1
    } else {
        2 * cap
    }
}

/// Whether slots `start .. end` of `s` all hold a value.
pub open spec fn live<T>(s: Seq<Option<T>>, start: int, end: int) -> bool {
    &&& 0 <= start <= end <= s.len()
    &&& forall|i: int| start <= i < end ==> (#[trigger] s[i]).is_some()
}

/// The values held in slots `start .. end` of `s`, in slot order.
pub open spec fn values<T>(s: Seq<Option<T>>, start: int, end: int) -> Seq<T> {
    Seq::new((end - start) as nat, |k: int| s[start + k].unwrap())
}

/// The capacity of a buffer that has never grown: none, except for an element
/// type that takes no memory, which never needs room and counts as holding
/// the largest number of values.
pub open spec fn initial_capacity<T>() -> nat {
    if size_of::<T>() == 0 {
        usize::MAX as nat
    } else {
        0
    }
}

/// Storage for values, one slot each. An empty slot (`None`) holds no value
/// and is never read.
pub struct Slots<T> {
    items: std::vec::Vec<Option<T>>,
}

impl<T> View for Slots<T> {
    type V = Seq<Option<T>>;

    closed spec fn view(&self) -> Seq<Option<T>> {
        self.items@
    }
}

impl<T> Slots<T> {
    /// No slots.
    pub fn new() -> (r: Self)
        ensures
            r@ == Seq::<Option<T>>::empty(),
    {
        Slots { items: std::vec::Vec::new() }
    }

    /// The number of slots.
    pub fn len(&self) -> (r: usize)
        ensures
            r == self@.len(),
    {
        self.items.len()
    }

    /// Makes room for `additional` more slots without changing any.
    pub fn reserve(&mut self, additional: usize)
        ensures
            final(self)@ == old(self)@,
    {
        self.items.reserve(additional);
    }

    /// Moves the value out of live slot `i`, which becomes empty.
    pub fn read(&mut self, i: usize) -> (r: T)
        requires
            i < old(self)@.len(),
            old(self)@[i as int].is_some(),
        ensures
            r == old(self)@[i as int].unwrap(),
            final(self)@ == old(self)@.update(i as int, None),
    {
        self.items.push(None);
        let slot = self.items.swap_remove(i);
        slot.unwrap()
    }

    /// Puts `v` into slot `i`, or into a new slot just past the last. A value
    /// left in slot `i` by a drain that stopped early is dropped.
    pub fn write(&mut self, i: usize, v: T)
        requires
            i <= old(self)@.len(),
        ensures
            i < old(self)@.len() ==> final(self)@ == old(self)@.update(i as int, Some(v)),
            i == old(self)@.len() ==> final(self)@ == old(self)@.push(Some(v)),
    {
        if i < self.items.len() {
            self.items.set(i, Some(v));
        } else {
            self.items.push(Some(v));
        }
    }

    /// The value in live slot `i`.
    pub fn get(&self, i: usize) -> (r: &T)
        requires
            i < self@.len(),
            self@[i as int].is_some(),
        ensures
            *r == self@[i as int].unwrap(),
    {
        self.items[i].as_ref().unwrap()
    }
}

/// A buffer of `capacity` values. The slots that have been written so far
/// are `slots`; room for the rest is reserved when the capacity grows.
pub struct RawVec<T> {
    slots: Slots<T>,
    cap: usize,
}

impl<T> View for RawVec<T> {
    type V = Seq<Option<T>>;

    closed spec fn view(&self) -> Seq<Option<T>> {
        self.slots@
    }
}

impl<T> RawVec<T> {
    pub closed spec fn capacity(&self) -> nat {
        self.cap as nat
    }

    /// An element type that takes no memory has the largest capacity.
    pub closed spec fn wf(&self) -> bool {
        size_of::<T>() == 0 ==> self.cap == usize::MAX
    }

    /// A buffer that holds nothing and has allocated nothing.
    pub fn new() -> (r: Self)
        ensures
            r.wf(),
            r@ == Seq::<Option<T>>::empty(),
            r.capacity() == initial_capacity::<T>(),
    {
        let cap: usize = if core::mem::size_of::<T>() == 0 {
            usize::MAX
        } else {
            0
        };
        RawVec { slots: Slots::new(), cap }
    }

    /// The number of values the buffer has room for.
    pub fn cap(&self) -> (r: usize)
        ensures
            r == self.capacity(),
    {
        self.cap
    }

    /// Doubles the capacity (from none to one), reserving the room; the
    /// slots keep what they held. An element type that takes no memory never
    /// grows.
    pub fn grow(&mut self)
        requires
            old(self).wf(),
            size_of::<T>() != 0,
            grown_capacity(old(self).capacity()) <= usize::MAX,
        ensures
            final(self).wf(),
            final(self).capacity() == grown_capacity(old(self).capacity()),
            final(self)@ == old(self)@,
    {
        let new_cap: usize = if self.cap == 0 {
            1
        } else {
            self.cap * 2
        };
        let used = self.slots.len();
        if used < new_cap {
            self.slots.reserve(new_cap - used);
        }
        self.cap = new_cap;
    }

    /// Moves the value out of live slot `i`, which becomes empty.
    pub fn read(&mut self, i: usize) -> (r: T)
        requires
            i < old(self)@.len(),
            old(self)@[i as int].is_some(),
        ensures
            r == old(self)@[i as int].unwrap(),
            final(self)@ == old(self)@.update(i as int, None),
            final(self).capacity() == old(self).capacity(),
            final(self).wf() == old(self).wf(),
    {
        self.slots.read(i)
    }

    /// Puts `v` into slot `i`, or into a new slot just past the last.
    pub fn write(&mut self, i: usize, v: T)
        requires
            i <= old(self)@.len(),
        ensures
            i < old(self)@.len() ==> final(self)@ == old(self)@.update(i as int, Some(v)),
            i == old(self)@.len() ==> final(self)@ == old(self)@.push(Some(v)),
            final(self).capacity() == old(self).capacity(),
            final(self).wf() == old(self).wf(),
    {
        self.slots.write(i, v)
    }

    /// Adds an empty slot just past the last one, unless slot `i` exists.
    pub fn ensure_slot(&mut self, i: usize)
        requires
            i <= old(self)@.len(),
        ensures
            i < old(self)@.len() ==> final(self)@ == old(self)@,
            i == old(self)@.len() ==> final(self)@ == old(self)@.push(None),
            final(self).capacity() == old(self).capacity(),
            final(self).wf() == old(self).wf(),
    {
        if i == self.slots.len() {
            self.slots.items.push(None);
        }
    }

    /// The value in live slot `i`.
    pub fn get(&self, i: usize) -> (r: &T)
        requires
            i < self@.len(),
            self@[i as int].is_some(),
        ensures
            *r == self@[i as int].unwrap(),
    {
        self.slots.get(i)
    }

    /// Lends out the slots; the capacity stays with the buffer.
    pub fn slots_mut(&mut self) -> (r: &mut Slots<T>)
        ensures
            r@ == old(self)@,
            final(self)@ == final(r)@,
            final(self).capacity() == old(self).capacity(),
            final(self).wf() == old(self).wf(),
    {
        &mut self.slots
    }

    /// Gives up the slots, releasing the reserved room with them.
    pub fn into_slots(self) -> (r: Slots<T>)
        ensures
            r@ == self@,
    {
        self.slots
    }
}

/// A cursor over slots `start .. end` of some buffer, which it does not own:
/// it moves each value out once, from either end.
pub struct RawValIter {
    start: usize,
    end: usize,
}

impl RawValIter {
    pub closed spec fn start(&self) -> int {
        self.start as int
    }

    pub closed spec fn end(&self) -> int {
        self.end as int
    }

    /// A cursor over the first `len` slots.
    pub fn new(len: usize) -> (r: Self)
        ensures
            r.start() == 0,
            r.end() == len,
    {
        RawValIter { start: 0, end: len }
    }

    /// The number of values not yet moved out.
    pub fn size_hint(&self) -> (r: usize)
        requires
            self.start() <= self.end(),
        ensures
            r == self.end() - self.start(),
    {
        self.end - self.start
    }

    /// Moves out the value at the front of the range, if any.
    pub fn next<T>(&mut self, buf: &mut Slots<T>) -> (r: Option<T>)
        requires
            live(old(buf)@, old(self).start(), old(self).end()),
        ensures
            final(self).end() == old(self).end(),
            old(self).start() == old(self).end() ==> {
                &&& r.is_none()
                &&& final(self).start() == old(self).start()
                &&& final(buf)@ == old(buf)@
            },
            old(self).start() < old(self).end() ==> {
                &&& r == Some(old(buf)@[old(self).start()].unwrap())
                &&& final(self).start() == old(self).start() + 1
                &&& final(buf)@ == old(buf)@.update(old(self).start(), None)
            },
    {
        if self.start == self.end {
            None
        } else {
            let v = buf.read(self.start);
            self.start = self.start + 1;
            Some(v)
        }
    }

    /// Moves out the value at the back of the range, if any.
    pub fn next_back<T>(&mut self, buf: &mut Slots<T>) -> (r: Option<T>)
        requires
            live(old(buf)@, old(self).start(), old(self).end()),
        ensures
            final(self).start() == old(self).start(),
            old(self).start() == old(self).end() ==> {
                &&& r.is_none()
                &&& final(self).end() == old(self).end()
                &&& final(buf)@ == old(buf)@
            },
            old(self).start() < old(self).end() ==> {
                &&& r == Some(old(buf)@[old(self).end() - 1].unwrap())
                &&& final(self).end() == old(self).end() - 1
                &&& final(buf)@ == old(buf)@.update(old(self).end() - 1, None)
            },
    {
        if self.start == self.end {
            None
        } else {
            self.end = self.end - 1;
            let v = buf.read(self.end);
            Some(v)
        }
    }
}

/// Moving the front value out of a live range leaves the rest live, with the
/// values that follow it.
pub proof fn lemma_take_front<T>(s: Seq<Option<T>>, start: int, end: int)
    requires
        live(s, start, end),
        start < end,
    ensures
        live(s.update(start, None), start + 1, end),
        values(s.update(start, None), start + 1, end) == values(s, start, end).drop_first(),
        values(s, start, end).first() == s[start].unwrap(),
{
    assert(values(s.update(start, None), start + 1, end) =~= values(s, start, end).drop_first());
}

/// Moving the back value out of a live range leaves the rest live, with the
/// values that precede it.
pub proof fn lemma_take_back<T>(s: Seq<Option<T>>, start: int, end: int)
    requires
        live(s, start, end),
        start < end,
    ensures
        live(s.update(end - 1, None), start, end - 1),
        values(s.update(end - 1, None), start, end - 1) == values(s, start, end).drop_last(),
        values(s, start, end).last() == s[end - 1].unwrap(),
{
    assert(values(s.update(end - 1, None), start, end - 1) =~= values(s, start, end).drop_last());
}

} // verus!
