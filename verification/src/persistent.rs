//! An immutable singly-linked list whose tails may be shared by many
//! lists at once through reference counting.

use std::rc::Rc;
use vstd::prelude::*;

verus! {

/// An immutable, structurally-shared singly-linked list; `prepend`
/// returns a new list and never mutates the receiver. Its view is the
/// sequence of elements from head to tail.
#[derive(Debug, Default, PartialEq, Eq, PartialOrd, Ord)]
pub struct PersistentList<T> {
    head: Option<Rc<Node<T>>>,
}

#[derive(Debug, Default, PartialEq, Eq, PartialOrd, Ord)]
struct Node<T> {
    data: T,
    next: Option<Rc<Node<T>>>,
}

impl<T> Node<T> {
    /// The elements of the chain hanging off `link`, head first.
    spec fn link_seq(link: Option<Rc<Node<T>>>) -> Seq<T>
        decreases link,
    {
        match link {
            None => Seq::empty(),
            Some(node) => node.as_seq(),
        }
    }

    /// The elements of the chain rooted at this node, head first.
    spec fn as_seq(self) -> Seq<T>
        decreases self,
    {
        seq![self.data] + Node::<T>::link_seq(self.next)
    }

    /// The elements of the chain a borrowing iterator still holds.
    spec fn ref_link_seq(link: Option<&Node<T>>) -> Seq<T> {
        match link {
            None => Seq::empty(),
            Some(node) => node.as_seq(),
        }
    }
}

/// The view of the list that `tail` returns for a list whose view is
/// `l`: the empty view for an empty list, and everything after the
/// head otherwise.
pub open spec fn tail_view<T>(l: Seq<T>) -> Seq<T> {
    if l.len() == 0 {
        Seq::empty()
    } else {
        l.drop_first()
    }
}

/// The view left after taking the tail `count` times in a row.
pub open spec fn tail_view_n<T>(l: Seq<T>, count: nat) -> Seq<T>
    decreases count,
{
    if count == 0 {
        l
    } else {
        tail_view_n(tail_view(l), (count - 1) as nat)
    }
}

impl<T> View for PersistentList<T> {
    type V = Seq<T>;

    closed spec fn view(&self) -> Seq<T> {
        Node::<T>::link_seq(self.head)
    }
}

/// Relies on Rc::clone: the new pointer shares the same allocation as
/// the old one, so it carries the same value.
#[verifier::external_body]
fn clone_link<T>(link: &Option<Rc<Node<T>>>) -> (cloned: Option<Rc<Node<T>>>)
    ensures
        cloned == *link,
{
    match link {
        None => None,
        Some(node) => Some(Rc::clone(node)),
    }
}

impl<T> PersistentList<T> {
    /// Creates an empty list.
    pub fn new() -> (list: Self)
        ensures
            list@ == Seq::<T>::empty(),
    {
        Self { head: None }
    }

    /// Returns a new list with `data` in front of all the receiver's
    /// elements; the receiver is unchanged and its nodes are shared,
    /// not copied.
    pub fn prepend(&self, data: T) -> (extended: PersistentList<T>)
        ensures
            extended@ == seq![data] + self@,
    {
        PersistentList {
            head: Some(Rc::new(Node { data, next: clone_link(&self.head) })),
        }
    }

    /// Returns the list of everything after the head: a new list that
    /// shares the receiver's nodes rather than copying them. On an
    /// empty list it returns another empty list, so repeated calls
    /// past the end stay empty and never fail.
    pub fn tail(&self) -> (rest: PersistentList<T>)
        ensures
            rest@ == tail_view(self@),
    {
        PersistentList {
            head: match &self.head {
                None => None,
                Some(node) => clone_link(&node.next),
            },
        }
    }

    /// Returns a shared reference to the head element, or `None` if
    /// the list is empty; the list itself is untouched.
    pub fn head(&self) -> (head: Option<&T>)
        ensures
            match head {
                None => self@.len() == 0,
                Some(data) => self@.len() > 0 && *data == self@[0],
            },
    {
        match &self.head {
            None => None,
            Some(node) => Some(&node.data),
        }
    }

    /// Returns a borrowing iterator that yields shared references to
    /// the elements in head-to-tail order; the list is not consumed and
    /// may be iterated again by creating a new iterator.
    pub fn iter(&self) -> (it: Iter<'_, T>)
        ensures
            it@ == self@,
    {
        Iter {
            next: match &self.head {
                None => None,
                Some(node) => Some(&**node),
            },
        }
    }
}

/// A borrowing iterator over a [`PersistentList`]; its view is the
/// sequence of elements not yet yielded, head first.
pub struct Iter<'a, T> {
    next: Option<&'a Node<T>>,
}

impl<'a, T> View for Iter<'a, T> {
    type V = Seq<T>;

    closed spec fn view(&self) -> Seq<T> {
        Node::<T>::ref_link_seq(self.next)
    }
}

impl<'a, T> Iter<'a, T> {
    /// Yields a reference to the next element, or `None` once every
    /// element has been yielded; after exhaustion every further call
    /// returns `None`.
    pub fn next(&mut self) -> (item: Option<&'a T>)
        ensures
            match item {
                None => old(self)@.len() == 0 && final(self)@ == old(self)@,
                Some(data) => old(self)@.len() > 0 && *data == old(self)@[0]
                    && final(self)@ == old(self)@.drop_first(),
            },
    {
        match self.next {
            None => None,
            Some(node) => {
                self.next = match &node.next {
                    None => None,
                    Some(next_node) => Some(&**next_node),
                };
                proof {
                    assert(old(self)@.drop_first() =~= final(self)@);
                }
                Some(&node.data)
            }
        }
    }
}

/// Structural sharing is observable but never destructive: a list
/// made by prepending `v` to a list whose view is `l` has `v` at its
/// head, and its tail reads exactly as `l` — the shared suffix is
/// seen unchanged through `tail` and `head`, however many lists
/// prepend their own heads onto it.
pub proof fn lemma_prepend_then_tail<T>(l: Seq<T>, v: T)
    ensures
        (seq![v] + l).len() > 0,
        (seq![v] + l)[0] == v,
        tail_view(seq![v] + l) == l,
{
    assert(tail_view(seq![v] + l) =~= l);
}

/// Tail past the end is stable: taking the tail of an empty list any
/// number of times still gives the empty list, and never fails.
pub proof fn lemma_tail_past_empty_is_stable<T>(count: nat)
    ensures
        tail_view_n(Seq::<T>::empty(), count) == Seq::<T>::empty(),
    decreases count,
{
    if count > 0 {
        assert(tail_view(Seq::<T>::empty()) =~= Seq::<T>::empty());
        lemma_tail_past_empty_is_stable::<T>((count - 1) as nat);
    }
}

/// Relies on Rc::try_unwrap: when the given pointer is the only one to
/// its allocation, the allocation is dissolved and the value inside is
/// returned whole; otherwise the pointer comes back untouched. The
/// call never panics.
#[verifier::external_body]
fn try_unwrap_node<T>(rc_node: Rc<Node<T>>) -> (taken: Result<Node<T>, Rc<Node<T>>>)
    ensures
        match taken {
            Ok(node) => node == rc_node,
            Err(same) => same == rc_node,
        },
    opens_invariants none
    no_unwind
{
    Rc::try_unwrap(rc_node)
}

impl<T> Drop for PersistentList<T> {
    /// Tears down only what this list owns alone, iteratively: each
    /// turn of the loop reclaims the head node if no other list or
    /// node still references it, and stops at the first node that is
    /// still shared, since everything below a shared node is reachable
    /// from its other referent and must survive. The stack depth stays
    /// constant however long the chain is.
    fn drop(&mut self)
        opens_invariants none
        no_unwind
    {
        let mut link: Option<Rc<Node<T>>> = None;
        core::mem::swap(&mut link, &mut self.head);
        loop
            decreases link,
        {
            match link {
                None => {
                    break;
                }
                Some(rc_node) => {
                    match try_unwrap_node(rc_node) {
                        Ok(node) => {
                            link = node.next;
                        }
                        Err(_) => {
                            break;
                        }
                    }
                }
            }
        }
    }
}

} // verus!
