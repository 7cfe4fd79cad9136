//! A LIFO singly-linked list with exclusive ownership of every node.

use crate::persistent::PersistentList;
use vstd::prelude::*;

verus! {

/// An exclusively-owned singly-linked list; pushes and pops happen at
/// the head. Its view is the sequence of elements from head to tail.
#[derive(Debug, Default, PartialEq, Eq, PartialOrd, Ord)]
pub struct LinkedList<T> {
    head: Option<Box<Node<T>>>,
}

#[derive(Debug, Default, PartialEq, Eq, PartialOrd, Ord)]
struct Node<T> {
    data: T,
    next: Option<Box<Node<T>>>,
}

impl<T> Node<T> {
    /// The elements of the chain hanging off `link`, head first.
    spec fn link_seq(link: Option<Box<Node<T>>>) -> Seq<T>
        decreases link,
    {
        match link {
            None => Seq::empty(),
            Some(node) => node.as_seq(),
        }
    }

    /// The elements of the chain rooted at this node, head first.
    spec fn as_seq(self) -> Seq<T>
        decreases self,
    {
        seq![self.data] + Node::<T>::link_seq(self.next)
    }

    /// The elements of the chain a borrowing iterator still holds.
    spec fn ref_link_seq(link: Option<&Node<T>>) -> Seq<T> {
        match link {
            None => Seq::empty(),
            Some(node) => node.as_seq(),
        }
    }
}

/// What a successful or failed peek may report of a list whose view is
/// `l`: absence exactly on the empty list, and otherwise the first
/// element of the view.
pub open spec fn peek_result_of<T>(l: Seq<T>, head: Option<T>) -> bool {
    match head {
        None => l.len() == 0,
        Some(data) => l.len() > 0 && data == l[0],
    }
}

/// The view of a list after pushing the elements of `values` onto a
/// list whose view is `l`, one `push` per element, first element
/// first.
pub open spec fn after_pushes<T>(l: Seq<T>, values: Seq<T>) -> Seq<T>
    decreases values.len(),
{
    if values.len() == 0 {
        l
    } else {
        after_pushes(seq![values[0]] + l, values.drop_first())
    }
}

impl<T> View for LinkedList<T> {
    type V = Seq<T>;

    closed spec fn view(&self) -> Seq<T> {
        Node::<T>::link_seq(self.head)
    }
}

impl<T> LinkedList<T> {
    /// Creates an empty list.
    pub fn new() -> (list: Self)
        ensures
            list@ == Seq::<T>::empty(),
    {
        Self { head: None }
    }

    /// Inserts `data` as the new head; every previous element moves one
    /// place toward the tail.
    pub fn push(&mut self, data: T)
        ensures
            final(self)@ == seq![data] + old(self)@,
    {
        let new_node = Box::new(Node { data, next: self.head.take() });
        self.head = Some(new_node);
    }

    /// Returns a shared reference to the head element, or `None` if
    /// the list is empty; the list itself is untouched.
    pub fn peek(&self) -> (head: Option<&T>)
        ensures
            peek_result_of(
                self@,
                match head {
                    None => None::<T>,
                    Some(data) => Some(*data),
                },
            ),
    {
        match &self.head {
            None => None,
            Some(node) => Some(&node.data),
        }
    }

    /// Returns a mutable reference to the head element, or `None` if
    /// the list is empty; whatever the caller writes through it becomes
    /// the new head element, and the rest of the list is unchanged.
    pub fn peek_mut(&mut self) -> (head: Option<&mut T>)
        ensures
            match head {
                None => old(self)@.len() == 0 && final(self)@ == old(self)@,
                Some(data) => old(self)@.len() > 0 && *data == old(self)@[0]
                    && final(self)@ == old(self)@.update(0, *final(data)),
            },
    {
        match &mut self.head {
            None => None,
            Some(node) => {
                let data_ref = &mut node.data;
                proof {
                    assert(old(self)@.update(0, *final(data_ref)) =~= seq![*final(data_ref)]
                        + old(self)@.drop_first());
                }
                Some(data_ref)
            }
        }
    }

    /// Removes and returns the head element, or `None` if the list is
    /// empty; the rest of the list is unchanged.
    pub fn pop(&mut self) -> (popped: Option<T>)
        ensures
            match popped {
                None => old(self)@.len() == 0 && final(self)@ == old(self)@,
                Some(data) => old(self)@.len() > 0 && data == old(self)@[0]
                    && final(self)@ == old(self)@.drop_first(),
            },
    {
        match self.head.take() {
            None => None,
            Some(node) => {
                let node = *node;
                self.head = node.next;
                proof {
                    assert(old(self)@.drop_first() =~= Node::<T>::link_seq(self.head));
                }
                Some(node.data)
            }
        }
    }

    /// Consumes the list, returning an iterator that yields the
    /// elements in head-to-tail order, exactly as repeated `pop` would.
    pub fn into_iter(self) -> (it: IntoIter<T>)
        ensures
            it@ == self@,
    {
        IntoIter(self)
    }

    /// Consumes the list and rebuilds it as a [`PersistentList`] with
    /// the same elements in the same head-to-tail order. The elements
    /// are drained head first, so they are prepended in reverse drain
    /// order — the last value prepended ends up at the head — which is
    /// exactly what keeps the order intact.
    pub fn to_persistent(self) -> (converted: PersistentList<T>)
        ensures
            converted@ == self@,
    {
        let ghost contents = self@;
        let mut values: Vec<T> = Vec::new();
        let mut iter = self.into_iter();
        proof {
            assert(values@ + iter@ =~= contents);
        }
        loop
            invariant
                values@ + iter@ == contents,
            ensures
                values@ == contents,
            decreases iter@.len(),
        {
            match iter.next() {
                None => {
                    proof {
                        assert(values@ + iter@ =~= values@);
                    }
                    break;
                }
                Some(data) => {
                    values.push(data);
                    proof {
                        assert(values@ + iter@ =~= contents);
                    }
                }
            }
        }
        let mut list = PersistentList::new();
        proof {
            assert(values@ + list@ =~= contents);
        }
        loop
            invariant
                values@ + list@ == contents,
            ensures
                list@ == contents,
            decreases values@.len(),
        {
            match values.pop() {
                None => {
                    proof {
                        assert(values@ + list@ =~= list@);
                    }
                    break;
                }
                Some(data) => {
                    list = list.prepend(data);
                    proof {
                        assert(values@ + list@ =~= contents);
                    }
                }
            }
        }
        list
    }

    /// Returns a borrowing iterator that yields shared references to
    /// the elements in head-to-tail order; the list is not consumed and
    /// may be iterated again by creating a new iterator.
    pub fn iter(&self) -> (it: Iter<'_, T>)
        ensures
            it@ == self@,
    {
        Iter {
            next: match &self.head {
                None => None,
                Some(node) => Some(&**node),
            },
        }
    }

    /// Returns a borrowing iterator that yields mutable references to
    /// the elements in head-to-tail order. The iterator holds the one
    /// live mutable borrow of the list for its whole lifetime, so no
    /// other access can interleave; writes through the yielded
    /// references land in the elements in place, never in the links,
    /// so the shape of the chain cannot change under it.
    pub fn iter_mut(&mut self) -> (it: IterMut<'_, T>)
        ensures
            it.remaining() == old(self)@,
    {
        IterMut {
            next: match &mut self.head {
                None => None,
                Some(node) => Some(&mut **node),
            },
        }
    }
}

/// A borrowing iterator over a [`LinkedList`]; its view is the
/// sequence of elements not yet yielded, head first.
pub struct Iter<'a, T> {
    next: Option<&'a Node<T>>,
}

impl<'a, T> View for Iter<'a, T> {
    type V = Seq<T>;

    closed spec fn view(&self) -> Seq<T> {
        Node::<T>::ref_link_seq(self.next)
    }
}

impl<'a, T> Iter<'a, T> {
    /// Yields a reference to the next element, or `None` once every
    /// element has been yielded; after exhaustion every further call
    /// returns `None`.
    pub fn next(&mut self) -> (item: Option<&'a T>)
        ensures
            match item {
                None => old(self)@.len() == 0 && final(self)@ == old(self)@,
                Some(data) => old(self)@.len() > 0 && *data == old(self)@[0]
                    && final(self)@ == old(self)@.drop_first(),
            },
    {
        match self.next {
            None => None,
            Some(node) => {
                self.next = match &node.next {
                    None => None,
                    Some(next_node) => Some(&**next_node),
                };
                proof {
                    assert(old(self)@.drop_first() =~= final(self)@);
                }
                Some(&node.data)
            }
        }
    }
}

/// A borrowing iterator over a [`LinkedList`] that yields mutable
/// references to the elements in head-to-tail order. It holds the one
/// live mutable borrow of the list for its whole lifetime, so no other
/// access can interleave with it.
pub struct IterMut<'a, T> {
    next: Option<&'a mut Node<T>>,
}

impl<'a, T> IterMut<'a, T> {
    /// The elements the iterator has not yet yielded, as they stand
    /// now, head first.
    pub closed spec fn remaining(&self) -> Seq<T> {
        match self.next {
            None => Seq::empty(),
            Some(node) => node.as_seq(),
        }
    }

    /// Yields a mutable reference to the next element, or `None` once
    /// every element has been yielded; whatever the caller writes
    /// through a yielded reference replaces that element in the list
    /// the iterator was created from.
    pub fn next(&mut self) -> (item: Option<&'a mut T>)
        ensures
            match item {
                None => old(self).remaining().len() == 0 && *final(self) == *old(self),
                Some(data) => old(self).remaining().len() > 0
                    && *data == old(self).remaining()[0]
                    && final(self).remaining() == old(self).remaining().drop_first(),
            },
    {
        match self.next.take() {
            None => None,
            Some(node) => {
                let Node { data, next } = node;
                self.next = match next {
                    None => None,
                    Some(next_node) => Some(&mut **next_node),
                };
                Some(data)
            }
        }
    }
}

/// A consuming iterator over a [`LinkedList`]; its view is the
/// sequence of elements not yet yielded, head first.
pub struct IntoIter<T>(LinkedList<T>);

impl<T> View for IntoIter<T> {
    type V = Seq<T>;

    closed spec fn view(&self) -> Seq<T> {
        self.0@
    }
}

impl<T> IntoIter<T> {
    /// Yields the next element, or `None` once every element has been
    /// yielded; after exhaustion every further call returns `None`.
    pub fn next(&mut self) -> (item: Option<T>)
        ensures
            match item {
                None => old(self)@.len() == 0 && final(self)@ == old(self)@,
                Some(data) => old(self)@.len() > 0 && data == old(self)@[0]
                    && final(self)@ == old(self)@.drop_first(),
            },
    {
        self.0.pop()
    }
}

/// LIFO order: pushing the elements of `values` in order, first
/// element first, leaves a list that reads as `values` reversed in
/// front of whatever was there before — and since `pop` takes
/// elements from the front of the view, popping then yields the
/// pushed values last-in first-out.
pub proof fn lemma_lifo_order<T>(l: Seq<T>, values: Seq<T>)
    ensures
        after_pushes(l, values) == values.reverse() + l,
    decreases values.len(),
{
    if values.len() == 0 {
        assert(after_pushes(l, values) =~= values.reverse() + l);
    } else {
        lemma_lifo_order(seq![values[0]] + l, values.drop_first());
        assert(values.drop_first().reverse() + (seq![values[0]] + l) =~= values.reverse() + l);
    }
}

/// Peek idempotence: `peek` borrows the list immutably, so it cannot
/// change the view or the length, and any two results its contract
/// admits for the same view are equal — two peeks with no mutation
/// in between therefore agree.
pub proof fn lemma_peek_idempotent<T>(l: Seq<T>, first: Option<T>, second: Option<T>)
    requires
        peek_result_of(l, first),
        peek_result_of(l, second),
    ensures
        first == second,
{
}

/// Mutation through `peek_mut` is observed: once the head element has
/// been replaced by `written`, as `peek_mut` ensures of a write
/// through the reference it returns, a `peek` reports exactly
/// `written`, and the length of the list has not changed.
pub proof fn lemma_peek_sees_peek_mut_write<T>(l: Seq<T>, written: T)
    requires
        l.len() > 0,
    ensures
        peek_result_of(l.update(0, written), Some(written)),
        l.update(0, written).len() == l.len(),
{
}

/// Consuming iteration exhaustion: an iterator holding the elements
/// `s` has, after `count` yields, the elements of `s` from position
/// `count` on; while anything remains the next yield is exactly
/// `s[count]`, and once `count` reaches the length nothing remains,
/// so every later call reports absence and changes nothing.
pub proof fn lemma_consuming_iteration_exhausts<T>(s: Seq<T>, count: int)
    requires
        0 <= count <= s.len(),
    ensures
        count < s.len() ==> s.skip(count).len() > 0 && s.skip(count)[0] == s[count]
            && s.skip(count).drop_first() == s.skip(count + 1),
        count == s.len() ==> s.skip(count).len() == 0,
{
    if count < s.len() {
        assert(s.skip(count).drop_first() =~= s.skip(count + 1));
    }
}

impl<T> Drop for LinkedList<T> {
    /// Tears the chain down iteratively: each turn of the loop detaches
    /// the head node and frees it with its outgoing link already gone,
    /// so the stack depth stays constant however long the list is.
    fn drop(&mut self)
        opens_invariants none
        no_unwind
    {
        let mut link: Option<Box<Node<T>>> = None;
        core::mem::swap(&mut link, &mut self.head);
        loop
            decreases link,
        {
            match link {
                None => {
                    break;
                }
                Some(node) => {
                    let node = *node;
                    link = node.next;
                }
            }
        }
    }
}

} // verus!
