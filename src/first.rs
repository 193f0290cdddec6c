//! A singly linked stack of `i32`.
use vstd::prelude::*;

verus! {

/// A list whose every element sits in its own node, the empty list included.
pub enum FunList {
    Empty,
    Elem(i32, Box<List>),
}

/// A list that spends no node on the empty tail.
pub enum AnotherList {
    Empty,
    ElemThenEmpty(i32),
    ElemThenNotEmpty(i32, Box<List>),
}

/// A stack of `i32`: the tail allocates nothing, every element has its own
/// node, and an empty link is a null pointer.
pub struct List {
    head: Link,
}

enum Link {
    Empty,
    More(Box<Node>),
}

struct Node {
    elem: i32,
    next: Link,
}

/// The elements behind a link, nearest first.
spec fn link_view(l: Link) -> Seq<i32>
    decreases l,
{
    match l {
        Link::Empty => Seq::empty(),
        Link::More(node) => seq![node.elem] + link_view(node.next),
    }
}

impl View for List {
    type V = Seq<i32>;

    /// The elements, top of the stack first.
    closed spec fn view(&self) -> Seq<i32> {
        link_view(self.head)
    }
}

impl Drop for List {
    /// Frees the nodes one at a time, so that a long list does not recurse
    /// once per node.
    fn drop(&mut self)
        opens_invariants none
        no_unwind
    {
        let mut cur_link = self.pop_node();
        loop
            decreases link_view(cur_link).len(),
        {
            match cur_link {
                Link::Empty => break,
                Link::More(boxed_node) => {
                    let node = *boxed_node;
                    cur_link = node.next;
                },
            }
        }
    }
}

impl List {
    /// An empty list.
    pub fn new() -> (r: List)
        ensures
            r@ == Seq::<i32>::empty(),
    {
        List { head: Link::Empty }
    }

    /// Puts `elem` on top.
    pub fn push(&mut self, elem: i32)
        ensures
            final(self)@ == seq![elem] + old(self)@,
    {
        let next = self.pop_node();
        let new_node = Box::new(Node { elem, next });
        self.head = Link::More(new_node);
    }

    /// Takes the top element off, if there is one.
    pub fn pop(&mut self) -> (r: Option<i32>)
        ensures
            old(self)@.len() == 0 ==> r is None && final(self)@ == old(self)@,
            old(self)@.len() > 0 ==> r == Some(old(self)@[0]) && final(self)@ == old(self)@.skip(1),
    {
        match self.pop_node() {
            Link::Empty => None,
            Link::More(node) => {
                let node = *node;
                self.head = node.next;
                proof {
                    assert(old(self)@.skip(1) =~= link_view(self.head));
                }
                Some(node.elem)
            },
        }
    }

    /// Detaches the whole chain, leaving the list empty.
    fn pop_node(&mut self) -> (r: Link)
        ensures
            link_view(r) == old(self)@,
            final(self)@ == Seq::<i32>::empty(),
        opens_invariants none
        no_unwind
    {
        let mut head = Link::Empty;
        core::mem::swap(&mut self.head, &mut head);
        head
    }
}

} // verus!
