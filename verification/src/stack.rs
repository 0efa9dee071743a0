//! The stack itself: a singly linked chain in which every node owns its
//! successor, viewed as the sequence of its elements from bottom to top.

use vstd::prelude::*;

verus! {

/// One element and the chain below it.
struct StackNode<T> {
    data: T,
    next: Option<Box<StackNode<T>>>,
}

/// An unbounded last-in-first-out container.
pub struct Stack<T> {
    top: Option<Box<StackNode<T>>>,
}

impl<T> StackNode<T> {
    /// The elements of a possibly absent chain, bottom first.
    spec fn chain(link: Option<Box<StackNode<T>>>) -> Seq<T>
        decreases link,
    {
        match link {
            None => Seq::empty(),
            Some(node) => node.elements(),
        }
    }

    /// The elements of the chain that starts at this node, bottom first, so
    /// that this node's element comes last.
    spec fn elements(self) -> Seq<T>
        decreases self,
    {
        Self::chain(self.next).push(self.data)
    }
}

impl<T> View for Stack<T> {
    type V = Seq<T>;

    /// The elements from bottom to top: the last one is the next to be popped.
    closed spec fn view(&self) -> Seq<T> {
        StackNode::<T>::chain(self.top)
    }
}

/// What a pop hands back from a stack holding `s`: the top element, or nothing
/// when there is none.
pub open spec fn pop_value<T>(s: Seq<T>) -> Option<T> {
    if s.len() == 0 {
        None
    } else {
        Some(s.last())
    }
}

/// What a pop leaves of a stack holding `s`: everything but the top element; an
/// empty stack stays empty.
pub open spec fn pop_rest<T>(s: Seq<T>) -> Seq<T> {
    if s.len() == 0 {
        s
    } else {
        s.drop_last()
    }
}

impl<T> Stack<T> {
    /// An empty stack.
    pub fn new() -> (stack: Self)
        ensures
            stack@ == Seq::<T>::empty(),
    {
        Stack { top: None }
    }

    /// Puts `data` on top. Everything already on the stack stays where it was.
    pub fn push(&mut self, data: T)
        ensures
            final(self)@ == old(self)@.push(data),
    {
        let new_node = Box::new(StackNode { data, next: self.top.take() });
        self.top = Some(new_node);
    }

    /// Takes the top element off and returns it. On an empty stack it returns
    /// `None` and changes nothing.
    pub fn pop(&mut self) -> (popped: Option<T>)
        ensures
            popped == pop_value(old(self)@),
            final(self)@ == pop_rest(old(self)@),
            old(self)@.len() == 0 ==> popped is None && final(self)@ == old(self)@,
    {
        match self.top.take() {
            None => None,
            Some(node) => {
                let StackNode { data, next } = *node;
                proof {
                    let below = StackNode::<T>::chain(next);
                    assert(below.push(data).drop_last() =~= below);
                }
                self.top = next;
                Some(data)
            },
        }
    }
}

/// The stack that holds `s` after each element of `vs` was pushed in turn.
pub open spec fn push_all<T>(s: Seq<T>, vs: Seq<T>) -> Seq<T>
    decreases vs.len(),
{
    if vs.len() == 0 {
        s
    } else {
        push_all(s, vs.drop_last()).push(vs.last())
    }
}

/// The stack that holds `s` after `n` pops in a row.
pub open spec fn pop_times<T>(s: Seq<T>, n: nat) -> Seq<T>
    decreases n,
{
    if n == 0 {
        s
    } else {
        pop_rest(pop_times(s, (n - 1) as nat))
    }
}

/// One step of a run of stack operations.
pub enum StackOp<T> {
    Push(T),
    Pop,
}

/// The stack that holds `s` after every operation of `ops` ran in order.
pub open spec fn apply_ops<T>(s: Seq<T>, ops: Seq<StackOp<T>>) -> Seq<T>
    decreases ops.len(),
{
    if ops.len() == 0 {
        s
    } else {
        let before = apply_ops(s, ops.drop_last());
        match ops.last() {
            StackOp::Push(v) => before.push(v),
            StackOp::Pop => pop_rest(before),
        }
    }
}

/// How many operations of `ops` are pushes.
pub open spec fn push_count<T>(ops: Seq<StackOp<T>>) -> nat
    decreases ops.len(),
{
    if ops.len() == 0 {
        0
    } else {
        let earlier = push_count(ops.drop_last());
        match ops.last() {
            StackOp::Push(_) => earlier + 1,
            StackOp::Pop => earlier,
        }
    }
}

/// How many pops of `ops` hand back a value when the run starts on a stack
/// that holds `s`.
pub open spec fn served_pop_count<T>(s: Seq<T>, ops: Seq<StackOp<T>>) -> nat
    decreases ops.len(),
{
    if ops.len() == 0 {
        0
    } else {
        let earlier = served_pop_count(s, ops.drop_last());
        match ops.last() {
            StackOp::Push(_) => earlier,
            StackOp::Pop => if pop_value(apply_ops(s, ops.drop_last())) is Some {
                earlier + 1
            } else {
                earlier
            },
        }
    }
}

/// Pushing a run of values puts them above what was there, in the order given.
proof fn lemma_push_all_appends<T>(s: Seq<T>, vs: Seq<T>)
    ensures
        push_all(s, vs) == s + vs,
    decreases vs.len(),
{
    if vs.len() == 0 {
        assert(s + vs =~= s);
    } else {
        lemma_push_all_appends(s, vs.drop_last());
        assert((s + vs.drop_last()).push(vs.last()) =~= s + vs);
    }
}

/// Popping `k` times takes the last `k` elements off, as long as there are
/// that many.
proof fn lemma_pop_times_truncates<T>(s: Seq<T>, k: nat)
    requires
        k <= s.len(),
    ensures
        pop_times(s, k) == s.subrange(0, s.len() - k),
    decreases k,
{
    if k == 0 {
        assert(s.subrange(0, s.len() as int) =~= s);
    } else {
        lemma_pop_times_truncates(s, (k - 1) as nat);
        let before = s.subrange(0, s.len() - (k - 1));
        assert(before.drop_last() =~= s.subrange(0, s.len() - k));
    }
}

/// Last in, first out: after the values `vs` were pushed one by one with no
/// pop in between, the pops that follow return them in reverse, the last
/// pushed first, and once all of them are popped the stack is what it was
/// before the first push.
pub proof fn lemma_lifo<T>(s: Seq<T>, vs: Seq<T>)
    ensures
        forall|k: nat|
            k < vs.len() ==> #[trigger] pop_value(pop_times(push_all(s, vs), k)) == Some(
                vs[vs.len() - 1 - k],
            ),
        pop_times(push_all(s, vs), vs.len()) == s,
{
    lemma_push_all_appends(s, vs);
    let full = s + vs;
    assert forall|k: nat| k < vs.len() implies #[trigger] pop_value(
        pop_times(push_all(s, vs), k),
    ) == Some(vs[vs.len() - 1 - k]) by {
        lemma_pop_times_truncates(full, k);
    }
    lemma_pop_times_truncates(full, vs.len());
    assert(full.subrange(0, s.len() as int) =~= s);
}

/// A push directly followed by a pop returns the pushed value and leaves the
/// stack as it was before the push.
pub proof fn lemma_push_then_pop<T>(s: Seq<T>, v: T)
    ensures
        pop_value(s.push(v)) == Some(v),
        pop_rest(s.push(v)) == s,
{
    assert(s.push(v).drop_last() =~= s);
}

/// The size of the stack after any run of operations is its size before, plus
/// the pushes, minus the pops that returned a value. Started on an empty stack
/// the size is pushes minus served pops, and it is never negative.
pub proof fn lemma_size_is_pushes_minus_served_pops<T>(s: Seq<T>, ops: Seq<StackOp<T>>)
    ensures
        apply_ops(s, ops).len() == s.len() + push_count(ops) - served_pop_count(s, ops),
        served_pop_count(s, ops) <= s.len() + push_count(ops),
    decreases ops.len(),
{
    if ops.len() > 0 {
        lemma_size_is_pushes_minus_served_pops(s, ops.drop_last());
    }
}

} // verus!
