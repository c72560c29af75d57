//! A doubly linked list whose nodes live in an arena and link to each other
//! by slot index.
use vstd::prelude::*;

verus! {

/// A list node: its value and the slots of its neighbours.
pub struct Node<T> {
    prev: Option<usize>,
    next: Option<usize>,
    value: T,
}

impl<T> Node<T> {
    pub closed spec fn spec_prev(&self) -> Option<usize> {
        self.prev
    }

    pub closed spec fn spec_next(&self) -> Option<usize> {
        self.next
    }

    pub closed spec fn spec_value(&self) -> T {
        self.value
    }

    /// A node holding `value`, linked to nothing.
    pub fn new(value: T) -> (r: Self)
        ensures
            r.spec_value() == value,
            r.spec_prev().is_none(),
            r.spec_next().is_none(),
    {
        Node { prev: None, next: None, value }
    }
}

/// A doubly linked list. Each node sits in its own slot of `nodes`, and the
/// slots are kept dense: removing a node moves the node in the last slot
/// into the freed one. `order` gives, for each list position, the slot of its
/// node, and `pos` is its inverse.
pub struct LinkedList<T> {
    nodes: std::vec::Vec<Node<T>>,
    head: Option<usize>,
    tail: Option<usize>,
    len: usize,
    order: Ghost<Seq<usize>>,
    pos: Ghost<Seq<int>>,
}

/// The slot of the neighbour at list position `i`, if `i` is a position.
pub open spec fn slot_at(order: Seq<usize>, i: int) -> Option<usize> {
    if 0 <= i < order.len() {
        Some(order[i])
    } else {
        None
    }
}

impl<T> View for LinkedList<T> {
    type V = Seq<T>;

    /// The values from head to tail.
    closed spec fn view(&self) -> Seq<T> {
        Seq::new(self.len as nat, |i: int| self.nodes@[self.order@[i] as int].value)
    }
}

impl<T> LinkedList<T> {
    /// The slots hold exactly the list's nodes, and each node's links name
    /// the slots of its neighbours in list order.
    pub closed spec fn wf(&self) -> bool {
        let n = self.len as int;
        let order = self.order@;
        let pos = self.pos@;
        &&& self.nodes@.len() == n
        &&& order.len() == n
        &&& pos.len() == n
        &&& forall|i: int| 0 <= i < n ==> (#[trigger] order[i]) < n && pos[order[i] as int] == i
        &&& forall|a: int| 0 <= a < n ==> 0 <= (#[trigger] pos[a]) < n && order[pos[a]] == a
        &&& self.head == slot_at(order, 0)
        &&& self.tail == slot_at(order, n - 1)
        &&& forall|i: int|
            0 <= i < n ==> (#[trigger] self.nodes@[order[i] as int]).prev == slot_at(order, i - 1)
        &&& forall|i: int|
            0 <= i < n ==> (#[trigger] self.nodes@[order[i] as int]).next == slot_at(order, i + 1)
    }

    /// An empty list.
    pub fn new() -> (r: Self)
        ensures
            r.wf(),
            r@ == Seq::<T>::empty(),
    {
        let r = LinkedList {
            nodes: std::vec::Vec::new(),
            head: None,
            tail: None,
            len: 0,
            order: Ghost(Seq::empty()),
            pos: Ghost(Seq::empty()),
        };
        assert(r@ =~= Seq::<T>::empty());
        r
    }

    /// The number of values.
    pub fn len(&self) -> (r: usize)
        requires
            self.wf(),
        ensures
            r == self@.len(),
    {
        self.len
    }

    /// The first value; `None` when the list is empty.
    pub fn head(&self) -> (r: Option<&T>)
        requires
            self.wf(),
        ensures
            self@.len() == 0 ==> r.is_none(),
            self@.len() > 0 ==> r == Some(&self@[0]),
    {
        match self.head {
            Some(h) => Some(&self.nodes[h].value),
            None => None,
        }
    }

    /// The last value; `None` when the list is empty.
    pub fn tail(&self) -> (r: Option<&T>)
        requires
            self.wf(),
        ensures
            self@.len() == 0 ==> r.is_none(),
            self@.len() > 0 ==> r == Some(&self@[self@.len() - 1]),
    {
        match self.tail {
            Some(t) => Some(&self.nodes[t].value),
            None => None,
        }
    }

    /// Appends `value` after the tail.
    pub fn push_back(&mut self, value: T)
        requires
            old(self).wf(),
            old(self)@.len() < usize::MAX,
        ensures
            final(self).wf(),
            final(self)@ == old(self)@.push(value),
    {
        let a = self.len;
        let mut node = Node::new(value);
        node.prev = self.tail;
        match self.tail {
            Some(t) => {
                self.nodes[t].next = Some(a);
            },
            None => {
                self.head = Some(a);
            },
        }
        self.nodes.push(node);
        self.tail = Some(a);
        self.len = a + 1;
        self.order = Ghost(old(self).order@.push(a));
        self.pos = Ghost(old(self).pos@.push(a as int));
        proof {
            let order = self.order@;
            assert forall|i: int| 0 <= i < a + 1 implies #[trigger] self.nodes@[order[i] as int].prev
                == slot_at(order, i - 1) && self.nodes@[order[i] as int].next == slot_at(order, i + 1) by {
                if i < a {
                    assert(old(self).order@[i] == order[i]);
                }
            }
        }
        assert(self@ =~= old(self)@.push(value));
    }
}

impl<T> LinkedList<T> {
    /// Inserts `value` before the head.
    pub fn push_front(&mut self, value: T)
        requires
            old(self).wf(),
            old(self)@.len() < usize::MAX,
        ensures
            final(self).wf(),
            final(self)@ == seq![value] + old(self)@,
    {
        let a = self.len;
        let mut node = Node::new(value);
        node.next = self.head;
        match self.head {
            Some(h) => {
                self.nodes[h].prev = Some(a);
            },
            None => {
                self.tail = Some(a);
            },
        }
        self.nodes.push(node);
        self.head = Some(a);
        self.len = a + 1;
        let ghost old_pos = old(self).pos@;
        self.order = Ghost(seq![a] + old(self).order@);
        self.pos = Ghost(Seq::new((a + 1) as nat, |s: int| if s == a { 0 } else { old_pos[s] + 1 }));
        proof {
            let order = self.order@;
            let old_order = old(self).order@;
            assert forall|i: int| 0 <= i < a + 1 implies #[trigger] order[i] < a + 1
                && self.pos@[order[i] as int] == i by {
                if i > 0 {
                    assert(old_order[i - 1] == order[i]);
                }
            }
            assert forall|i: int| 0 <= i < a + 1 implies #[trigger] self.nodes@[order[i] as int].prev
                == slot_at(order, i - 1) && self.nodes@[order[i] as int].next == slot_at(order, i + 1) by {
                if i > 0 {
                    assert(old_order[i - 1] == order[i]);
                }
            }
        }
        assert(self@ =~= seq![value] + old(self)@);
    }

    /// Removes and returns the head value; `None` when the list is empty.
    pub fn pop_front(&mut self) -> (r: Option<T>)
        requires
            old(self).wf(),
        ensures
            final(self).wf(),
            old(self)@.len() == 0 ==> r.is_none() && final(self)@ == old(self)@,
            old(self)@.len() > 0 ==> {
                &&& r == Some(old(self)@[0])
                &&& final(self)@ == old(self)@.drop_first()
            },
    {
        if self.len == 0 {
            return None;
        }
        let h = self.head.unwrap();
        let ghost o = self.order@;
        let ghost ps = self.pos@;
        let next = self.nodes[h].next;
        match next {
            Some(x) => {
                self.nodes[x].prev = None;
            },
            None => {
                self.tail = None;
            },
        }
        self.head = next;
        let v = self.free_slot(h, Ghost(o.drop_first()), Ghost(ps.map_values(|p: int| p - 1)));
        assert(self@ =~= old(self)@.drop_first());
        Some(v)
    }

    /// Removes and returns the tail value; `None` when the list is empty.
    pub fn pop_back(&mut self) -> (r: Option<T>)
        requires
            old(self).wf(),
        ensures
            final(self).wf(),
            old(self)@.len() == 0 ==> r.is_none() && final(self)@ == old(self)@,
            old(self)@.len() > 0 ==> {
                &&& r == Some(old(self)@.last())
                &&& final(self)@ == old(self)@.drop_last()
            },
    {
        if self.len == 0 {
            return None;
        }
        let t = self.tail.unwrap();
        let ghost o = self.order@;
        let ghost ps = self.pos@;
        let prev = self.nodes[t].prev;
        match prev {
            Some(p) => {
                self.nodes[p].next = None;
            },
            None => {
                self.head = None;
            },
        }
        self.tail = prev;
        let v = self.free_slot(t, Ghost(o.drop_last()), Ghost(ps));
        assert(self@ =~= old(self)@.drop_last());
        Some(v)
    }

    /// Frees slot `h`, whose node has been unlinked from the others, by
    /// moving the node of the last slot into it; returns the freed node's
    /// value. `order` and `pos` describe the list that the other nodes form.
    fn free_slot(&mut self, h: usize, order: Ghost<Seq<usize>>, pos: Ghost<Seq<int>>) -> (r: T)
        requires
            old(self).nodes@.len() > 0,
            h < old(self).nodes@.len(),
            links_hold(old(self).nodes@, order@, pos@, h, old(self).head, old(self).tail),
        ensures
            final(self).wf(),
            final(self)@ == Seq::new(
                (old(self).nodes@.len() - 1) as nat,
                |i: int| old(self).nodes@[order@[i] as int].value,
            ),
            r == old(self).nodes@[h as int].value,
    {
        let last = self.nodes.len() - 1;
        let ghost o = order@;
        let ghost ps = pos@;
        let ghost n0 = self.nodes@;
        if h != last {
            match self.nodes[last].prev {
                Some(p) => {
                    self.nodes[p].next = Some(h);
                },
                None => {
                    self.head = Some(h);
                },
            }
            match self.nodes[last].next {
                Some(x) => {
                    self.nodes[x].prev = Some(h);
                },
                None => {
                    self.tail = Some(h);
                },
            }
        }
        let node = self.nodes.swap_remove(h);
        self.len = last;
        self.order = Ghost(o.map_values(|s: usize| if s == last { h } else { s }));
        self.pos = Ghost(Seq::new(last as nat, |a: int| if a == h { ps[last as int] } else { ps[a] }));
        node.value
    }
}

/// Slots `0 .. nodes.len()` but `h` hold the nodes of a list whose positions
/// `order` gives (and `pos` inverts), with links, head and tail that match.
spec fn links_hold<T>(
    nodes: Seq<Node<T>>,
    order: Seq<usize>,
    pos: Seq<int>,
    h: usize,
    head: Option<usize>,
    tail: Option<usize>,
) -> bool {
    let n = order.len() as int;
    &&& nodes.len() == n + 1
    &&& pos.len() == n + 1
    &&& forall|i: int| 0 <= i < n ==> (#[trigger] order[i]) <= n && order[i] != h && pos[order[i] as int] == i
    &&& forall|a: int| 0 <= a <= n && a != h ==> 0 <= (#[trigger] pos[a]) < n && order[pos[a]] == a
    &&& head == slot_at(order, 0)
    &&& tail == slot_at(order, n - 1)
    &&& forall|i: int| 0 <= i < n ==> (#[trigger] nodes[order[i] as int]).spec_prev() == slot_at(order, i - 1)
    &&& forall|i: int| 0 <= i < n ==> (#[trigger] nodes[order[i] as int]).spec_next() == slot_at(order, i + 1)
}

} // verus!
