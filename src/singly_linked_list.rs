//! A singly linked list that knows only its head: appending and removing at
//! the end walk the whole chain.
use vstd::prelude::*;

verus! {

struct Node<T> {
    value: T,
    next: Option<Box<Node<T>>>,
}

/// The values of the chain that starts at `link`, in order.
closed spec fn chain<T>(link: Option<Box<Node<T>>>) -> Seq<T>
    decreases link,
{
    match link {
        None => Seq::empty(),
        Some(node) => seq![node.value] + chain(node.next),
    }
}

/// A singly linked list; values are appended at the end and removed from the
/// end.
pub struct LinkedList<T> {
    head: Option<Box<Node<T>>>,
    len: usize,
}

impl<T> View for LinkedList<T> {
    type V = Seq<T>;

    /// The values from the head to the end.
    closed spec fn view(&self) -> Seq<T> {
        chain(self.head)
    }
}

/// Appends `value` at the end of the chain that starts at `link`.
fn append<T>(link: &mut Option<Box<Node<T>>>, value: T)
    ensures
        chain(*final(link)) == chain(*old(link)).push(value),
    decreases chain(*old(link)).len(),
{
    match link {
        None => {
            *link = Some(Box::new(Node { value, next: None }));
            assert(chain(*link) =~= seq![value]);
        },
        Some(node) => {
            append(&mut node.next, value);
        },
    }
}

/// Removes and returns the last value of the chain that starts at `link`.
fn take_last<T>(link: &mut Option<Box<Node<T>>>) -> (r: Option<T>)
    ensures
        chain(*old(link)).len() == 0 ==> r.is_none() && chain(*final(link)) == chain(*old(link)),
        chain(*old(link)).len() > 0 ==> {
            &&& r == Some(chain(*old(link)).last())
            &&& chain(*final(link)) == chain(*old(link)).drop_last()
        },
    decreases chain(*old(link)).len(),
{
    match link.take() {
        None => None,
        Some(mut node) => {
            let ghost whole = chain(Some(node));
            if node.next.is_none() {
                assert(chain(node.next) == Seq::<T>::empty());
                assert(whole =~= seq![node.value]);
                Some(node.value)
            } else {
                let ghost v = node.value;
                let r = take_last(&mut node.next);
                *link = Some(node);
                assert(chain(*link) =~= seq![v] + chain(node.next));
                assert(chain(*link) =~= whole.drop_last());
                r
            }
        },
    }
}

impl<T> LinkedList<T> {
    /// The stored length is the chain's.
    pub closed spec fn wf(&self) -> bool {
        self.len == chain(self.head).len()
    }

    /// An empty list.
    pub fn new() -> (r: Self)
        ensures
            r.wf(),
            r@ == Seq::<T>::empty(),
    {
        LinkedList { head: None, len: 0 }
    }

    /// The number of values.
    pub fn len(&self) -> (r: usize)
        requires
            self.wf(),
        ensures
            r == self@.len(),
    {
        self.len
    }

    /// The first value; `None` when the list is empty.
    pub fn front(&self) -> (r: Option<&T>)
        requires
            self.wf(),
        ensures
            self@.len() == 0 ==> r.is_none(),
            self@.len() > 0 ==> r == Some(&self@[0]),
    {
        match &self.head {
            Some(node) => Some(&node.value),
            None => None,
        }
    }

    /// Appends `value` after the last node, which it reaches by walking
    /// from the head.
    pub fn push(&mut self, value: T)
        requires
            old(self).wf(),
            old(self)@.len() < usize::MAX,
        ensures
            final(self).wf(),
            final(self)@ == old(self)@.push(value),
    {
        append(&mut self.head, value);
        self.len = self.len + 1;
    }

    /// Removes and returns the last value; `None` when the list is empty.
    pub fn pop(&mut self) -> (r: Option<T>)
        requires
            old(self).wf(),
        ensures
            final(self).wf(),
            old(self)@.len() == 0 ==> r.is_none() && final(self)@ == old(self)@,
            old(self)@.len() > 0 ==> {
                &&& r == Some(old(self)@.last())
                &&& final(self)@ == old(self)@.drop_last()
            },
    {
        if self.len == 0 {
            return None;
        }
        let r = take_last(&mut self.head);
        self.len = self.len - 1;
        r
    }
}

impl<T> LinkedList<T> {
    /// A walk over the values from the head, which leaves the list as it is.
    pub fn iter<'a>(&'a self) -> (r: Iter<'a, T>)
        ensures
            r@ == self@,
    {
        let current = match &self.head {
            Some(node) => Some(&**node),
            None => None,
        };
        Iter { current }
    }
}

/// The values from `cur` to the end of its chain.
closed spec fn chain_from<T>(cur: Option<&Node<T>>) -> Seq<T> {
    match cur {
        None => Seq::empty(),
        Some(node) => seq![node.value] + chain(node.next),
    }
}

/// A read-only walk over a list, one node at a time.
pub struct Iter<'a, T> {
    current: Option<&'a Node<T>>,
}

impl<'a, T> View for Iter<'a, T> {
    type V = Seq<T>;

    /// The values not yet visited.
    closed spec fn view(&self) -> Seq<T> {
        chain_from(self.current)
    }
}

impl<'a, T> Iter<'a, T> {
    /// The next value; `None` once the walk has reached the end.
    pub fn next(&mut self) -> (r: Option<&'a T>)
        ensures
            old(self)@.len() == 0 ==> r.is_none() && final(self)@ == old(self)@,
            old(self)@.len() > 0 ==> {
                &&& r == Some(&old(self)@[0])
                &&& final(self)@ == old(self)@.drop_first()
            },
    {
        match self.current {
            None => None,
            Some(node) => {
                self.current = match &node.next {
                    Some(next) => Some(&**next),
                    None => None,
                };
                assert(chain_from(self.current) == chain(node.next));
                assert(old(self)@.drop_first() =~= chain(node.next));
                Some(&node.value)
            },
        }
    }
}

} // verus!
