use std::collections::VecDeque;
use vstd::prelude::*;

verus! {

/// The value at the front of a list whose values are `s`, if any.
pub open spec fn front<T>(s: Seq<T>) -> Option<T> {
    if s.len() == 0 {
        None
    } else {
        Some(s[0])
    }
}

/// The values of a list whose values are `s` after one pop.
pub open spec fn after_pop<T>(s: Seq<T>) -> Seq<T> {
    if s.len() == 0 {
        s
    } else {
        s.drop_first()
    }
}

/// The values of a list whose values are `s` after pushing `vs[0]`, then `vs[1]`, and so on.
pub open spec fn after_pushes<T>(s: Seq<T>, vs: Seq<T>) -> Seq<T>
    decreases vs.len(),
{
    if vs.len() == 0 {
        s
    } else {
        seq![vs.last()].add(after_pushes(s, vs.drop_last()))
    }
}

/// The values of a list whose values are `s` after `j` pops.
pub open spec fn after_pops<T>(s: Seq<T>, j: nat) -> Seq<T>
    decreases j,
{
    if j == 0 {
        s
    } else {
        after_pop(after_pops(s, (j - 1) as nat))
    }
}

/// The values of a list whose values are `s` after the operations `ops`, in order:
/// `Some(v)` pushes `v`, `None` pops.
pub open spec fn after_ops<T>(s: Seq<T>, ops: Seq<Option<T>>) -> Seq<T>
    decreases ops.len(),
{
    if ops.len() == 0 {
        s
    } else {
        let before = after_ops(s, ops.drop_last());
        match ops.last() {
            Some(v) => seq![v].add(before),
            None => after_pop(before),
        }
    }
}

/// How many of the operations `ops` are pushes.
pub open spec fn push_count<T>(ops: Seq<Option<T>>) -> nat
    decreases ops.len(),
{
    if ops.len() == 0 {
        0
    } else {
        push_count(ops.drop_last()) + if ops.last().is_some() {
            1nat
        } else {
            0nat
        }
    }
}

/// Every pop among the operations `ops`, run on a list holding `s`, finds a value.
pub open spec fn pops_all_found<T>(s: Seq<T>, ops: Seq<Option<T>>) -> bool {
    forall|i: int|
        0 <= i < ops.len() && (#[trigger] ops[i]).is_none() ==> after_ops(s, ops.take(i)).len()
            > 0
}

/// One link of the chain: a value and the rest of the chain after it.
#[derive(Debug)]
struct Node<T> {
    value: T,
    next: Option<Box<Node<T>>>,
}

impl<T> Node<T> {
    fn new(value: T, next: Option<Box<Node<T>>>) -> (n: Node<T>)
        ensures
            n.value == value,
            n.next == next,
    {
        Node { value, next }
    }

    /// Drops a chain node by node, so that a long chain does not nest drops.
    fn release(link: Option<Box<Node<T>>>)
        opens_invariants none
        no_unwind
    {
        let mut cur = link;
        loop
            decreases Node::<T>::chain_seq(cur).len(),
        {
            match cur {
                None => break,
                Some(node) => {
                    let node = *node;
                    cur = node.next;
                },
            }
        }
    }

    /// The values held by a chain, front to back.
    spec fn chain_seq(link: Option<Box<Node<T>>>) -> Seq<T>
        decreases link,
    {
        match link {
            None => Seq::empty(),
            Some(node) => seq![node.value].add(Node::<T>::chain_seq(node.next)),
        }
    }
}

/// A singly-linked list that adds and removes at its front.
#[derive(Debug)]
pub struct LinkedList<T> {
    head: Option<Box<Node<T>>>,
    length: usize,
}

impl<T> View for LinkedList<T> {
    type V = Seq<T>;

    /// The values of the list, front (most recently pushed) to back.
    closed spec fn view(&self) -> Seq<T> {
        Node::<T>::chain_seq(self.head)
    }
}

impl<T> LinkedList<T> {
    /// The stored count matches the number of nodes in the chain.
    pub closed spec fn well_formed(&self) -> bool {
        self.length as nat == self@.len()
    }

    /// Creates an empty list.
    pub fn new() -> (list: Self)
        ensures
            list.well_formed(),
            list@ == Seq::<T>::empty(),
    {
        LinkedList { head: None, length: 0 }
    }

    /// Adds `value` at the front of the list.
    pub fn push(&mut self, value: T)
        requires
            old(self).well_formed(),
            old(self)@.len() < usize::MAX,
        ensures
            final(self).well_formed(),
            final(self)@ == seq![value].add(old(self)@),
            final(self)@ == after_pushes(old(self)@, seq![value]),
    {
        proof {
            let vs = seq![value];
            assert(vs.drop_last() =~= Seq::<T>::empty());
            assert(after_pushes(self@, vs.drop_last()) == self@);
            assert(vs.last() == value);
        }
        self.length = self.length + 1;
        let new_node = Box::new(Node::new(value, self.head.take()));
        self.head = Some(new_node);
    }

    /// Removes the front value and returns it, or returns `None` on an empty list.
    pub fn pop(&mut self) -> (r: Option<T>)
        requires
            old(self).well_formed(),
        ensures
            final(self).well_formed(),
            r == front(old(self)@),
            final(self)@ == after_pop(old(self)@),
    {
        match self.head.take() {
            None => None,
            Some(node) => {
                let node = *node;
                proof {
                    assert(Node::<T>::chain_seq(node.next) =~= old(self)@.drop_first());
                }
                self.length = self.length - 1;
                self.head = node.next;
                Some(node.value)
            },
        }
    }

    /// A reference to the front value, or `None` on an empty list.
    pub fn peek(&self) -> (r: Option<&T>)
        ensures
            front(self@) == (match r {
                Some(x) => Some(*x),
                None => None,
            }),
    {
        match &self.head {
            None => None,
            Some(node) => Some(&node.value),
        }
    }

    /// A mutable reference to the front value, or `None` on an empty list.
    pub fn peek_mut(&mut self) -> (r: Option<&mut T>)
        requires
            old(self).well_formed(),
        ensures
            final(self).well_formed(),
            old(self)@.len() == 0 ==> r.is_none() && final(self)@ == old(self)@,
            old(self)@.len() > 0 ==> r.is_some() && front(old(self)@) == Some(*r.unwrap())
                && final(self)@ == old(self)@.update(0, *final(r.unwrap())),
    {
        match &mut self.head {
            None => None,
            Some(node) => Some(&mut node.value),
        }
    }

    /// The number of values in the list.
    pub fn length(&self) -> (n: usize)
        requires
            self.well_formed(),
        ensures
            n == self@.len(),
    {
        self.length
    }

    /// Removes every value, releasing the nodes one at a time.
    pub fn clear(&mut self)
        ensures
            final(self).well_formed(),
            final(self)@ == Seq::<T>::empty(),
    {
        Node::<T>::release(self.head.take());
        self.length = 0;
    }

    /// An iterator that takes the values out of the list, front to back.
    pub fn into_iter(self) -> (it: IntoIter<T>)
        requires
            self.well_formed(),
        ensures
            it.well_formed(),
            it@ == self@,
    {
        IntoIter { list: self }
    }

    /// An iterator over references to the values, front to back.
    pub fn iter(&self) -> (it: Iter<'_, T>)
        ensures
            it@ == self@,
    {
        match &self.head {
            None => Iter { next: None },
            Some(node) => Iter { next: Some(&**node) },
        }
    }

    /// An iterator over mutable references to the values, front to back.
    ///
    /// Once the borrow ends, the list holds the same number of values, each one what
    /// was last written through its reference (or the old value where none was).
    pub fn iter_mut(&mut self) -> (it: IterMut<'_, T>)
        requires
            old(self).well_formed(),
        ensures
            it@ == old(self)@,
            it.pending().len() == old(self)@.len(),
            final(self).well_formed(),
            final(self)@.len() == old(self)@.len(),
            forall|i: int|
                0 <= i < old(self)@.len() ==> final(self)@[i] == *final(#[trigger] it.pending()[i]),
    {
        let ghost n = self@.len();
        let mut refs: VecDeque<&mut T> = VecDeque::new();
        let mut cur: &mut Option<Box<Node<T>>> = &mut self.head;
        loop
            invariant
                n == old(self)@.len(),
                refs@.len() + Node::<T>::chain_seq(*cur).len() == n,
                Node::<T>::chain_seq(*cur) == old(self)@.subrange(refs@.len() as int, n as int),
                forall|i: int| 0 <= i < refs@.len() ==> *#[trigger] refs@[i] == old(self)@[i],
                Node::<T>::chain_seq(after_borrow(*self).head) == Seq::new(
                    refs@.len(),
                    |i: int| *final(refs@[i]),
                ).add(Node::<T>::chain_seq(*final(cur))),
                after_borrow(*self).length == old(self).length,
            ensures
                refs@.len() == n,
                forall|i: int| 0 <= i < refs@.len() ==> *#[trigger] refs@[i] == old(self)@[i],
                Node::<T>::chain_seq(after_borrow(*self).head) == Seq::new(
                    refs@.len(),
                    |i: int| *final(refs@[i]),
                ).add(Node::<T>::chain_seq(*final(cur))),
                *cur == None::<Box<Node<T>>>,
                after_borrow(*self).length == old(self).length,
            decreases Node::<T>::chain_seq(*cur).len(),
        {
            let ghost link = *cur;
            match cur {
                None => break,
                Some(node) => {
                    let node: &mut Node<T> = &mut **node;
                    let ghost k = refs@.len() as int;
                    proof {
                        assert(Node::<T>::chain_seq(link) == seq![node.value].add(
                            Node::<T>::chain_seq(node.next),
                        ));
                        assert(Node::<T>::chain_seq(node.next) =~= Node::<T>::chain_seq(
                            link,
                        ).drop_first());
                        assert(Node::<T>::chain_seq(link)[0] == old(self)@[k]);
                        assert(Node::<T>::chain_seq(node.next) =~= old(self)@.subrange(
                            k + 1,
                            n as int,
                        ));
                    }
                    refs.push_back(&mut node.value);
                    cur = &mut node.next;
                },
            }
        }
        IterMut { refs }
    }

    /// Whether the list holds no value.
    pub fn is_empty(&self) -> (b: bool)
        requires
            self.well_formed(),
        ensures
            b == (self@.len() == 0),
    {
        self.length == 0
    }
}

impl<T> Drop for LinkedList<T> {
    fn drop(&mut self)
        ensures
            final(self)@ == Seq::<T>::empty(),
        opens_invariants none
        no_unwind
    {
        let mut head: Option<Box<Node<T>>> = None;
        core::mem::swap(&mut head, &mut self.head);
        Node::<T>::release(head);
    }
}

impl<T: Clone> Clone for LinkedList<T> {
    /// A list of clones of the values, in the same order.
    fn clone(&self) -> (r: Self)
        ensures
            r.well_formed(),
            r@.len() == self@.len(),
            forall|i: int| 0 <= i < self@.len() ==> cloned(#[trigger] self@[i], r@[i]),
    {
        let mut values: Vec<T> = Vec::new();
        let mut cur: &Option<Box<Node<T>>> = &self.head;
        let ghost n = self@.len();
        loop
            invariant
                n == self@.len(),
                values@.len() + Node::<T>::chain_seq(*cur).len() == n,
                forall|i: int| 0 <= i < values@.len() ==> cloned(#[trigger] self@[i], values@[i]),
                Node::<T>::chain_seq(*cur) =~= self@.subrange(values@.len() as int, n as int),
        ensures
            values@.len() == n,
            forall|i: int| 0 <= i < values@.len() ==> cloned(#[trigger] self@[i], values@[i]),
        decreases Node::<T>::chain_seq(*cur).len(),
        {
            match cur {
                None => break,
                Some(node) => {
                    let ghost k = values@.len() as int;
                    proof {
                        assert(Node::<T>::chain_seq(*cur) == seq![node.value].add(
                            Node::<T>::chain_seq(node.next),
                        ));
                        assert(Node::<T>::chain_seq(node.next) =~= Node::<T>::chain_seq(
                            *cur,
                        ).drop_first());
                        assert(Node::<T>::chain_seq(*cur)[0] == self@[k]);
                        assert(Node::<T>::chain_seq(node.next) =~= self@.subrange(k + 1, n as int));
                    }
                    let v = node.value.clone();
                    values.push(v);
                    cur = &node.next;
                },
            }
        }
        let total: usize = values.len();
        let mut r = LinkedList::new();
        while values.len() > 0
            invariant
                r.well_formed(),
                n == total,
                r@.len() + values@.len() == n,
                n == self@.len(),
                forall|i: int| 0 <= i < values@.len() ==> cloned(#[trigger] self@[i], values@[i]),
                forall|i: int|
                    values@.len() <= i < n ==> cloned(#[trigger] self@[i], r@[i - values@.len()]),
            decreases values@.len(),
        {
            let v = values.pop().unwrap();
            r.push(v);
        }
        r
    }
}

/// An iterator that takes the values out of a list, front to back.
pub struct IntoIter<T> {
    list: LinkedList<T>,
}

impl<T> View for IntoIter<T> {
    type V = Seq<T>;

    /// The values not yet handed out, front to back.
    closed spec fn view(&self) -> Seq<T> {
        self.list@
    }
}

impl<T> IntoIter<T> {
    pub closed spec fn well_formed(&self) -> bool {
        self.list.well_formed()
    }

    /// Hands out the next value, or `None` once the list is drained.
    pub fn next(&mut self) -> (r: Option<T>)
        requires
            old(self).well_formed(),
        ensures
            final(self).well_formed(),
            r == front(old(self)@),
            final(self)@ == after_pop(old(self)@),
    {
        self.list.pop()
    }
}

/// An iterator over references to the values of a list, front to back.
pub struct Iter<'a, T> {
    next: Option<&'a Node<T>>,
}

impl<'a, T> View for Iter<'a, T> {
    type V = Seq<T>;

    /// The values not yet visited, front to back.
    closed spec fn view(&self) -> Seq<T> {
        match self.next {
            None => Seq::empty(),
            Some(node) => seq![node.value].add(Node::<T>::chain_seq(node.next)),
        }
    }
}

impl<'a, T> Iter<'a, T> {
    /// Hands out a reference to the next value, or `None` at the end of the chain.
    pub fn next(&mut self) -> (r: Option<&'a T>)
        ensures
            old(self)@.len() == 0 ==> r.is_none() && final(self)@ == old(self)@,
            old(self)@.len() > 0 ==> r == Some(&old(self)@[0]) && final(self)@ == old(self)@.drop_first(),
    {
        match self.next {
            None => None,
            Some(node) => {
                proof {
                    assert(old(self)@.drop_first() =~= Node::<T>::chain_seq(node.next));
                }
                self.next = match &node.next {
                    None => None,
                    Some(b) => Some(&**b),
                };
                Some(&node.value)
            },
        }
    }
}

/// An iterator over mutable references to the values of a list, front to back.
pub struct IterMut<'a, T> {
    refs: VecDeque<&'a mut T>,
}

impl<'a, T> View for IterMut<'a, T> {
    type V = Seq<T>;

    /// The values not yet visited, front to back, as they are now.
    closed spec fn view(&self) -> Seq<T> {
        Seq::new(self.refs@.len(), |i: int| *self.refs@[i])
    }
}

impl<'a, T> IterMut<'a, T> {
    /// The references not yet handed out, front to back.
    pub closed spec fn pending(&self) -> Seq<&'a mut T> {
        self.refs@
    }

    /// Hands out a mutable reference to the next value, or `None` at the end of the list.
    pub fn next(&mut self) -> (r: Option<&'a mut T>)
        ensures
            old(self).pending().len() == 0 ==> r.is_none()
                && final(self).pending() == old(self).pending(),
            old(self).pending().len() > 0 ==> r == Some(old(self).pending()[0])
                && final(self).pending() == old(self).pending().drop_first(),
            old(self)@.len() > 0 ==> r.is_some() && *r.unwrap() == old(self)@[0]
                && final(self)@ == old(self)@.drop_first(),
    {
        self.refs.pop_front()
    }
}

} // verus!
