//! A singly linked list that is used as a stack: items enter and leave at
//! the front.
//!
//! The list is seen as the sequence of its items, front first.

use vstd::prelude::*;
use vstd::std_specs::cmp::PartialEqSpec;
use vstd::string::StringExecFns;

verus! {

/// One cell of a list: an item and the cells behind it.
pub struct Node<T> {
    value: T,
    next: Option<Box<Node<T>>>,
}

/// A stack of items of type `T`.
///
/// A well-formed list knows its own length; `new` builds a well-formed list
/// and every method keeps it so.
pub struct LinkedList<T> {
    head: Option<Box<Node<T>>>,
    size: usize,
}

impl<T> Node<T> {
    /// The items of a chain of cells, front first.
    pub closed spec fn chain(link: Option<Box<Node<T>>>) -> Seq<T>
        decreases link,
    {
        match link {
            None => Seq::empty(),
            Some(node) => seq![node.value] + Node::chain(node.next),
        }
    }

    /// The items from this cell on, front first.
    pub closed spec fn items(self) -> Seq<T> {
        seq![self.value] + Node::chain(self.next)
    }

    /// A cell that holds `value` in front of the chain `next`.
    pub fn new(value: T, next: Option<Box<Node<T>>>) -> (node: Node<T>)
        ensures
            node.items() == seq![value] + Node::chain(next),
            node.items().len() == Node::chain(next).len() + 1,
            node.items()[0] == value,
    {
        Node { value: value, next: next }
    }
}

impl<T> View for LinkedList<T> {
    type V = Seq<T>;

    closed spec fn view(&self) -> Seq<T> {
        Node::chain(self.head)
    }
}

impl<T> LinkedList<T> {
    /// The recorded length is the number of items.
    pub closed spec fn wf(&self) -> bool {
        self.size == self@.len()
    }

    /// The empty list.
    pub fn new() -> (list: LinkedList<T>)
        ensures
            list.wf(),
            list@ == Seq::<T>::empty(),
    {
        LinkedList { head: None, size: 0 }
    }

    /// The number of items.
    pub fn get_size(&self) -> (n: usize)
        requires
            self.wf(),
        ensures
            n == self@.len(),
    {
        self.size
    }

    /// Whether the list holds no item.
    pub fn is_empty(&self) -> (b: bool)
        requires
            self.wf(),
        ensures
            b == (self@.len() == 0),
    {
        self.get_size() == 0
    }

    /// Puts `value` in front of all items.
    pub fn push_front(&mut self, value: T)
        requires
            old(self).wf(),
            old(self)@.len() < usize::MAX,
        ensures
            final(self).wf(),
            final(self)@ == seq![value] + old(self)@,
    {
        let rest = self.head.take();
        let new_node: Box<Node<T>> = Box::new(Node::new(value, rest));
        self.head = Some(new_node);
        self.size += 1;
    }

    /// Takes the front item out, if there is one.
    pub fn pop_front(&mut self) -> (r: Option<T>)
        requires
            old(self).wf(),
        ensures
            final(self).wf(),
            match r {
                Some(value) => {
                    &&& old(self)@.len() > 0
                    &&& value == old(self)@[0]
                    &&& final(self)@ == old(self)@.drop_first()
                },
                None => old(self)@.len() == 0 && final(self)@ == old(self)@,
            },
    {
        match self.head.take() {
            Some(node) => {
                let node: Node<T> = *node;
                assert(old(self)@ == seq![node.value] + Node::chain(node.next));
                assert((seq![node.value] + Node::chain(node.next)).drop_first() =~= Node::chain(
                    node.next,
                ));
                self.head = node.next;
                self.size -= 1;
                Some(node.value)
            },
            None => None,
        }
    }

    /// Takes the front item out, if there is one: walking a list by `next`
    /// empties it from the front.
    pub fn next(&mut self) -> (r: Option<T>)
        requires
            old(self).wf(),
        ensures
            final(self).wf(),
            match r {
                Some(value) => {
                    &&& old(self)@.len() > 0
                    &&& value == old(self)@[0]
                    &&& final(self)@ == old(self)@.drop_first()
                },
                None => old(self)@.len() == 0 && final(self)@ == old(self)@,
            },
    {
        self.pop_front()
    }

    /// A cursor at the front of the list, which hands the items out by copy
    /// and leaves the list as it is.
    pub fn iter<'a>(&'a self) -> (it: LinkedListIter<'a, T>)
        ensures
            it.remaining() == self@,
    {
        LinkedListIter { current: &self.head }
    }
}

/// A cursor into a list.
pub struct LinkedListIter<'a, T> {
    current: &'a Option<Box<Node<T>>>,
}

impl<'a, T> LinkedListIter<'a, T> {
    /// The items that the cursor has not handed out yet, front first.
    pub closed spec fn remaining(&self) -> Seq<T> {
        Node::chain(*self.current)
    }
}

impl<'a, T: Copy> LinkedListIter<'a, T> {
    /// Hands out the item under the cursor and moves on, or gives `None` at
    /// the end of the list.
    pub fn next(&mut self) -> (r: Option<T>)
        ensures
            match r {
                Some(value) => {
                    &&& old(self).remaining().len() > 0
                    &&& value == old(self).remaining()[0]
                    &&& final(self).remaining() == old(self).remaining().drop_first()
                },
                None => old(self).remaining().len() == 0 && final(self).remaining() == old(
                    self,
                ).remaining(),
            },
    {
        match self.current {
            Some(node) => {
                assert((seq![node.value] + Node::chain(node.next)).drop_first() =~= Node::chain(
                    node.next,
                ));
                self.current = &node.next;
                Some(node.value)
            },
            None => None,
        }
    }
}

/// The text of a list whose items read `parts`: each part with one space in
/// front of it, front item first.
pub open spec fn spaced(parts: Seq<Seq<char>>) -> Seq<char>
    decreases parts.len(),
{
    if parts.len() == 0 {
        Seq::empty()
    } else {
        spaced(parts.drop_last()) + seq![' '] + parts.last()
    }
}

/// `parts` holds, item for item, what `to_string` gives for `items`.
pub open spec fn shows<T: core::fmt::Display>(items: Seq<T>, parts: Seq<String>) -> bool {
    &&& parts.len() == items.len()
    &&& forall|i: int|
        0 <= i < items.len() ==> vstd::string::to_string_from_display_ensures::<T>(
            &#[trigger] items[i],
            parts[i],
        )
}

impl<T: core::fmt::Display> LinkedList<T> {
    /// The list as text: every item as `to_string` shows it, each with one
    /// space in front of it, front item first.
    pub fn to_text(&self) -> (r: String)
        ensures
            exists|parts: Seq<String>| #[trigger]
                shows(self@, parts) && r@ == spaced(crate::text::texts(parts)),
    {
        let mut current: &Option<Box<Node<T>>> = &self.head;
        let mut result = String::new();
        let ghost mut seen: Seq<T> = Seq::empty();
        let ghost mut parts: Seq<String> = Seq::empty();
        assert(crate::text::texts(parts) =~= Seq::<Seq<char>>::empty());
        loop
            invariant
                self@ == seen + Node::chain(*current),
                shows(seen, parts),
                result@ == spaced(crate::text::texts(parts)),
            ensures
                shows(self@, parts),
                result@ == spaced(crate::text::texts(parts)),
            decreases Node::chain(*current).len(),
        {
            match current {
                Some(node) => {
                    let part = node.value.to_string();
                    proof {
                        reveal_strlit(" ");
                        assert(" "@ =~= seq![' ']);
                        let grown = parts.push(part);
                        assert(crate::text::texts(grown).drop_last() =~= crate::text::texts(parts));
                        assert(crate::text::texts(grown).last() == part@);
                        assert(seen.push(node.value) + Node::chain(node.next) =~= seen
                            + Node::chain(*current));
                        seen = seen.push(node.value);
                        parts = grown;
                    }
                    result.append(" ");
                    result.append(part.as_str());
                    current = &node.next;
                },
                None => {
                    proof {
                        assert(seen + Node::chain(*current) =~= seen);
                    }
                    break ;
                },
            }
        }
        result
    }
}

impl<T> LinkedList<T> {
    /// The length that the list has on record.
    pub closed spec fn recorded_len(&self) -> nat {
        self.size as nat
    }

    /// A well-formed list has its true length on record.
    pub proof fn law_recorded_len_is_len(&self)
        requires
            self.wf(),
        ensures
            self.recorded_len() == self@.len(),
    {
    }
}

/// Well-formed lists are equal exactly when they hold equal items in the
/// same order.
pub proof fn law_equal_lists_hold_equal_items<T: PartialEq>(a: &LinkedList<T>, b: &LinkedList<T>)
    requires
        a.wf(),
        b.wf(),
    ensures
        a.eq_spec(b) <==> items_eq(a@, b@),
{
    a.law_recorded_len_is_len();
    b.law_recorded_len_is_len();
}

/// Two sequences are equal item by item, as the items' own `==` sees it.
pub open spec fn items_eq<T: PartialEq>(a: Seq<T>, b: Seq<T>) -> bool {
    &&& a.len() == b.len()
    &&& forall|i: int| 0 <= i < a.len() ==> (#[trigger] a[i]).eq_spec(&b[i])
}

impl<T: PartialEq> PartialEq for LinkedList<T> {
    /// Two lists are equal when they have the same length on record and
    /// hold equal items in the same order.
    fn eq(&self, other: &Self) -> (r: bool) {
        if self.size != other.size {
            return false;
        }
        let mut self_cur: &Option<Box<Node<T>>> = &self.head;
        let mut other_cur: &Option<Box<Node<T>>> = &other.head;
        let ghost mut done: int = 0;
        loop
            invariant
                self.size == other.size,
                0 <= done <= self@.len(),
                done <= other@.len(),
                Node::chain(*self_cur) == self@.subrange(done, self@.len() as int),
                Node::chain(*other_cur) == other@.subrange(done, other@.len() as int),
                T::obeys_eq_spec() ==> forall|i: int|
                    0 <= i < done ==> (#[trigger] self@[i]).eq_spec(&other@[i]),
            decreases Node::chain(*self_cur).len(),
        {
            match self_cur {
                Some(a) => match other_cur {
                    Some(b) => {
                        assert(self@[done] == a.value) by {
                            assert(Node::chain(*self_cur)[0] == a.value);
                        }
                        assert(other@[done] == b.value) by {
                            let tail = other@.subrange(done, other@.len() as int);
                            assert(Node::chain(*other_cur) == seq![b.value] + Node::chain(b.next));
                            assert(tail.len() > 0);
                            assert(tail[0] == b.value);
                        }
                        if a.value != b.value {
                            return false;
                        }
                        proof {
                            assert(Node::chain(a.next) =~= self@.subrange(
                                done + 1,
                                self@.len() as int,
                            )) by {
                                assert(Node::chain(*self_cur).drop_first() =~= Node::chain(a.next));
                            }
                            assert(Node::chain(b.next) =~= other@.subrange(
                                done + 1,
                                other@.len() as int,
                            )) by {
                                assert(Node::chain(*other_cur).drop_first() =~= Node::chain(b.next));
                            }
                            done = done + 1;
                        }
                        self_cur = &a.next;
                        other_cur = &b.next;
                    },
                    None => {
                        assert(Node::chain(*self_cur).len() > 0);
                        assert(Node::chain(*other_cur).len() == 0);
                        return false;
                    },
                },
                None => {
                    assert(Node::chain(*self_cur).len() == 0);
                    let r = other_cur.is_none();
                    proof {
                        if !r {
                            assert(Node::chain(*other_cur).len() > 0);
                        }
                    }
                    return r;
                },
            }
        }
    }
}

impl<T: PartialEq> vstd::std_specs::cmp::PartialEqSpecImpl for LinkedList<T> {
    open spec fn obeys_eq_spec() -> bool {
        T::obeys_eq_spec()
    }

    open spec fn eq_spec(&self, other: &Self) -> bool {
        self.recorded_len() == other.recorded_len() && items_eq(self@, other@)
    }
}

/// `b` holds, item for item, a clone of what `a` holds.
pub open spec fn items_cloned<T: Clone>(a: Seq<T>, b: Seq<T>) -> bool {
    &&& a.len() == b.len()
    &&& forall|i: int| 0 <= i < a.len() ==> cloned::<T>(#[trigger] a[i], b[i])
}

impl<T: Clone> Clone for Node<T> {
    /// A copy of this cell and of every cell behind it.
    fn clone(&self) -> (r: Self)
        ensures
            items_cloned(self.items(), r.items()),
        decreases self,
    {
        let rest: Option<Box<Node<T>>> = match &self.next {
            Some(node) => Some(Box::new((&**node).clone())),
            None => None,
        };
        let value = self.value.clone();
        let r = Node::new(value, rest);
        proof {
            let a = self.items();
            let b = r.items();
            assert(Node::chain(self.next).len() == Node::chain(rest).len());
            assert forall|i: int| 0 <= i < a.len() implies cloned::<T>(#[trigger] a[i], b[i]) by {
                if i > 0 {
                    assert(a[i] == Node::chain(self.next)[i - 1]);
                    assert(b[i] == Node::chain(rest)[i - 1]);
                    match self.next {
                        Some(node) => {
                            assert(Node::chain(self.next) == node.items());
                        },
                        None => {},
                    }
                }
            }
        }
        r
    }
}

impl<T: Clone> Clone for LinkedList<T> {
    /// A list of the same length that holds a clone of every item, in the
    /// same order.
    fn clone(&self) -> (r: Self)
        ensures
            items_cloned(self@, r@),
            r.recorded_len() == self.recorded_len(),
            self.wf() ==> r.wf(),
    {
        let head: Option<Box<Node<T>>> = match &self.head {
            Some(node) => Some(Box::new((&**node).clone())),
            None => None,
        };
        LinkedList { head: head, size: self.size }
    }
}

impl<T> Drop for LinkedList<T> {
    /// Frees the cells one by one, front first, so that a long list does not
    /// exhaust the stack.
    fn drop(&mut self)
        opens_invariants none
        no_unwind
    {
        let mut current: Option<Box<Node<T>>> = None;
        core::mem::swap(&mut current, &mut self.head);
        loop
            decreases Node::chain(current).len(),
        {
            match current {
                Some(node) => {
                    let node: Node<T> = *node;
                    assert(Node::chain(current) == seq![node.value] + Node::chain(node.next));
                    current = node.next;
                },
                None => {
                    break ;
                },
            }
        }
    }
}

/// A summary of a collection as one value of type `T`.
pub trait ComputeNorm<T> {
    /// The summary of `self`.
    fn compute_norm(&self) -> T;
}

} // verus!
