//! The node store: where the values live that an atom refers to.
//!
//! An atom holds a machine word, and a word cannot own a value.  So the
//! stacks and the queue of this crate keep their values in a store and put
//! the *handle* of a value into the word: a small non-zero integer that
//! names a slot of the store.  Zero is the null handle.  Each stored node
//! also holds the handle of the node that follows it, which is how the
//! chains are linked.
//!
//! `Arena` is the store itself, a vector of slots with a free list, owned by
//! one thread at a time.  `Store` shares one arena between threads behind a
//! mutex.  A stale or made-up handle is never an error: it names no node.
use vstd::prelude::*;
use crate::Node;
use crate::NodeIterator;
use std::sync::Mutex;
use std::sync::MutexGuard;

verus! {

/// A stored node: a value and the handle of the node that follows it.
struct Entry<T> {
    val: T,
    next: u64,
}

/// A pool of nodes, each found by its handle.
pub struct Arena<T> {
    slots: Vec<Option<Entry<T>>>,
    free: Vec<usize>,
}

/// The values on the chain that starts at `head`, head first.  The chain
/// ends at the first handle that names no node; a node is followed once.
pub open spec fn values<T>(nodes: Map<u64, (T, u64)>, head: u64) -> Seq<T>
    decreases nodes.dom().len(),
    when nodes.dom().finite()
{
    if nodes.contains_key(head) {
        seq![nodes[head].0] + values(nodes.remove(head), nodes[head].1)
    } else {
        Seq::empty()
    }
}

/// The nodes that are left when the chain that starts at `head` is taken
/// out.
pub open spec fn without_chain<T>(nodes: Map<u64, (T, u64)>, head: u64) -> Map<u64, (T, u64)>
    decreases nodes.dom().len(),
    when nodes.dom().finite()
{
    if nodes.contains_key(head) {
        without_chain(nodes.remove(head), nodes[head].1)
    } else {
        nodes
    }
}

/// True of the nodes that an arena can hold: there are finitely many, and
/// none is under the null handle.
pub open spec fn is_store<T>(nodes: Map<u64, (T, u64)>) -> bool {
    nodes.dom().finite() && !nodes.contains_key(0)
}

/// The value of the node `handle`, where `handle` names one.
pub open spec fn value_in<T>(nodes: Map<u64, (T, u64)>, handle: u64) -> Option<T> {
    if nodes.contains_key(handle) {
        Some(nodes[handle].0)
    } else {
        None
    }
}

/// The handle that follows the node `handle`; null where `handle` names no
/// node.
pub open spec fn link_in<T>(nodes: Map<u64, (T, u64)>, handle: u64) -> u64 {
    if nodes.contains_key(handle) {
        nodes[handle].1
    } else {
        0
    }
}

impl<T> Arena<T> {
    #[verifier::type_invariant]
    spec fn inv(self) -> bool {
        &&& forall|k: int|
            0 <= k < self.free.len() ==> (#[trigger] self.free[k]) < self.slots.len()
                && self.slots[self.free[k] as int] is None
        &&& forall|j: int, k: int|
            0 <= j < k < self.free.len() ==> self.free[j] != self.free[k]
    }

    /// The nodes in the arena: for each handle in use, the value it names
    /// and the handle that follows.
    pub closed spec fn nodes(&self) -> Map<u64, (T, u64)> {
        Map::new(
            |h: u64| 1 <= h <= self.slots.len() && self.slots[h - 1] is Some,
            |h: u64| (self.slots[h - 1]->0.val, self.slots[h - 1]->0.next),
        )
    }

    /// An arena holds finitely many nodes, and none under the null handle.
    pub proof fn lemma_nodes(&self)
        ensures
            self.nodes().dom().finite(),
            !self.nodes().contains_key(0),
    {
        let bound = self.slots.len() as int;
        let all = Set::new(|h: u64| 1 <= h <= bound);
        let ints = vstd::set_lib::set_int_range(1, bound + 1);
        assert(ints.finite()) by {
            vstd::set_lib::lemma_int_range(1, bound + 1);
        }
        let image = ints.map(|i: int| i as u64);
        assert(image.finite()) by {
            ints.lemma_map_finite(|i: int| i as u64);
        }
        assert(self.nodes().dom().subset_of(image)) by {
            assert forall|h: u64| self.nodes().dom().contains(h) implies image.contains(h) by {
                assert(ints.contains(h as int));
            }
        }
        vstd::set_lib::lemma_len_subset(self.nodes().dom(), image);
    }

    /// An empty arena.
    pub fn new() -> (arena: Self)
        ensures
            arena.nodes() == Map::<u64, (T, u64)>::empty(),
    {
        let arena = Arena { slots: Vec::new(), free: Vec::new() };
        assert(arena.nodes() =~= Map::<u64, (T, u64)>::empty());
        arena
    }

    /// Stores a node with the value `val`, followed by `next`, and returns
    /// its handle: one that named no node before.
    pub fn insert(&mut self, val: T, next: u64) -> (handle: u64)
        ensures
            handle != 0,
            !old(self).nodes().contains_key(handle),
            final(self).nodes() == old(self).nodes().insert(handle, (val, next)),
    {
        let mut taken = Arena::new();
        core::mem::swap(self, &mut taken);
        proof {
            use_type_invariant(&taken);
        }
        let Arena { mut slots, mut free } = taken;
        let handle: u64;
        match free.pop() {
            Some(index) => {
                slots[index] = Some(Entry { val, next });
                handle = (index as u64) + 1;
            },
            None => {
                slots.push(Some(Entry { val, next }));
                handle = slots.len() as u64;
            },
        }
        *self = Arena { slots, free };
        assert(self.nodes() =~= old(self).nodes().insert(handle, (val, next)));
        handle
    }

    /// True when `handle` names a node.
    pub fn contains(&self, handle: u64) -> (present: bool)
        ensures
            present == self.nodes().contains_key(handle),
    {
        if handle == 0 || handle - 1 >= self.slots.len() as u64 {
            return false;
        }
        let index = (handle - 1) as usize;
        self.slots[index].is_some()
    }

    /// The handle that follows the node `handle`, or the null handle where
    /// `handle` names no node.
    pub fn next_of(&self, handle: u64) -> (next: u64)
        ensures
            next == if self.nodes().contains_key(handle) {
                self.nodes()[handle].1
            } else {
                0
            },
    {
        if handle == 0 || handle - 1 >= self.slots.len() as u64 {
            return 0;
        }
        let index = (handle - 1) as usize;
        match &self.slots[index] {
            Some(entry) => entry.next,
            None => 0,
        }
    }

    /// Makes `next` follow the node `handle`.  Where `handle` names no node,
    /// nothing changes.
    pub fn set_next(&mut self, handle: u64, next: u64)
        ensures
            final(self).nodes() == if old(self).nodes().contains_key(handle) {
                old(self).nodes().insert(handle, (old(self).nodes()[handle].0, next))
            } else {
                old(self).nodes()
            },
    {
        if handle == 0 || handle - 1 >= self.slots.len() as u64 {
            return ;
        }
        let index = (handle - 1) as usize;
        let mut taken = Arena::new();
        core::mem::swap(self, &mut taken);
        proof {
            use_type_invariant(&taken);
        }
        let Arena { mut slots, free } = taken;
        let mut slot: Option<Entry<T>> = None;
        core::mem::swap(&mut slots[index], &mut slot);
        match slot {
            Some(entry) => {
                slots[index] = Some(Entry { val: entry.val, next });
                *self = Arena { slots, free };
                assert(self.nodes() =~= old(self).nodes().insert(
                    handle,
                    (old(self).nodes()[handle].0, next),
                ));
            },
            None => {
                *self = Arena { slots, free };
                assert(self.nodes() =~= old(self).nodes());
            },
        }
    }

    /// Takes the node `handle` out of the arena and returns its value and
    /// the handle that followed it.  The handle is free for reuse.
    pub fn remove(&mut self, handle: u64) -> (node: Option<(T, u64)>)
        ensures
            node == if old(self).nodes().contains_key(handle) {
                Some(old(self).nodes()[handle])
            } else {
                None
            },
            final(self).nodes() == old(self).nodes().remove(handle),
    {
        if handle == 0 || handle - 1 >= self.slots.len() as u64 {
            assert(self.nodes() =~= old(self).nodes().remove(handle));
            return None;
        }
        let index = (handle - 1) as usize;
        let mut taken = Arena::new();
        core::mem::swap(self, &mut taken);
        proof {
            use_type_invariant(&taken);
        }
        let Arena { mut slots, mut free } = taken;
        let mut slot: Option<Entry<T>> = None;
        core::mem::swap(&mut slots[index], &mut slot);
        match slot {
            Some(entry) => {
                free.push(index);
                *self = Arena { slots, free };
                assert(self.nodes() =~= old(self).nodes().remove(handle));
                Some((entry.val, entry.next))
            },
            None => {
                *self = Arena { slots, free };
                assert(self.nodes() =~= old(self).nodes().remove(handle));
                None
            },
        }
    }

    /// Takes the whole chain that starts at `head` out of the arena, and
    /// returns its values as a chain of owned nodes, head first.
    pub fn take_chain(&mut self, head: u64) -> (taken: NodeIterator<T>)
        ensures
            taken@ == values(old(self).nodes(), head),
            final(self).nodes() == without_chain(old(self).nodes(), head),
    {
        let mut collected: Option<Box<Node<T>>> = None;
        let mut cur: u64 = head;
        proof {
            self.lemma_nodes();
        }
        loop
            invariant
                self.nodes().dom().finite(),
                values(old(self).nodes(), head) == Node::chain(collected).reverse() + values(
                    self.nodes(),
                    cur,
                ),
                without_chain(old(self).nodes(), head) == without_chain(self.nodes(), cur),
            ensures
                values(old(self).nodes(), head) == Node::chain(collected).reverse(),
                final(self).nodes() == without_chain(old(self).nodes(), head),
            decreases self.nodes().dom().len(),
        {
            let ghost before = self.nodes();
            let ghost so_far = Node::chain(collected);
            match self.remove(cur) {
                None => {
                    assert(Node::chain(collected).reverse() + Seq::<T>::empty() =~= Node::chain(
                        collected,
                    ).reverse());
                    break ;
                },
                Some((val, next)) => {
                    collected = Some(Box::new(Node { val, next: collected }));
                    proof {
                        self.lemma_nodes();
                        assert(Node::chain(collected) =~= seq![val] + so_far);
                        assert(Node::chain(collected).reverse() =~= so_far.reverse() + seq![val]);
                        assert(so_far.reverse() + (seq![val] + values(self.nodes(), next))
                            =~= Node::chain(collected).reverse() + values(self.nodes(), next));
                    }
                    cur = next;
                },
            }
        }
        NodeIterator::new(collected).rev()
    }
}

/// `Mutex` of std.  Nothing is known of what is in it.
#[verifier::external_type_specification]
#[verifier::external_body]
#[verifier::reject_recursive_types(T)]
pub struct ExMutex<T: ?Sized>(Mutex<T>);

/// `MutexGuard` of std: the mutex is held while the guard lives.  Nothing
/// is known of what is in it.
#[verifier::external_type_specification]
#[verifier::external_body]
#[verifier::reject_recursive_types(T)]
pub struct ExMutexGuard<'a, T: ?Sized + 'a>(MutexGuard<'a, T>);

/// `Mutex::new` of std: a mutex around `value`.
pub assume_specification<T>[ Mutex::<T>::new ](value: T) -> (mutex: Mutex<T>);

/// `Mutex::lock` of std: waits until the mutex is free and returns the guard
/// that holds it; dropping the guard releases the mutex.  A mutex that was
/// poisoned, because a thread panicked while it held the guard, is taken all
/// the same.  What the mutex protects is shared, so nothing is claimed of it.
#[verifier::external_body]
fn lock<'a, T>(mutex: &'a Mutex<T>) -> (guard: MutexGuard<'a, T>) {
    match mutex.lock() {
        Ok(guard) => guard,
        Err(poisoned) => poisoned.into_inner(),
    }
}

/// The `DerefMut` of std's `MutexGuard`: the value that the held mutex
/// protects.
#[verifier::external_body]
fn protected<'a, 'b, T>(guard: &'b mut MutexGuard<'a, T>) -> (value: &'b mut T) {
    &mut **guard
}

/// An arena that threads share.  Every operation takes the arena for
/// itself while it runs.
#[verifier::reject_recursive_types(T)]
pub(crate) struct Store<T> {
    arena: Mutex<Arena<T>>,
}

impl<T> Store<T> {
    /// An empty store.
    pub(crate) fn new() -> Self {
        Store { arena: Mutex::new(Arena::new()) }
    }

    /// Stores a node with the value `val` that nothing follows, and returns
    /// its handle, which is not null.
    pub(crate) fn insert(&self, val: T) -> (handle: u64)
        ensures
            handle != 0,
    {
        let mut guard = lock(&self.arena);
        let arena = protected(&mut guard);
        arena.insert(val, 0)
    }

    /// Makes `next` follow the node `handle`.
    pub(crate) fn set_next(&self, handle: u64, next: u64) {
        let mut guard = lock(&self.arena);
        let arena = protected(&mut guard);
        arena.set_next(handle, next)
    }

    /// The handle that follows the node `handle`; null where `handle` names
    /// no node.  The store is shared: the answer is that of the nodes that
    /// the mutex held when it was taken.
    pub(crate) fn next_of(&self, handle: u64) -> (next: u64)
        ensures
            exists|nodes: Map<u64, (T, u64)>| is_store(nodes) && next == link_in(nodes, handle),
    {
        let mut guard = lock(&self.arena);
        let arena = protected(&mut guard);
        proof {
            arena.lemma_nodes();
        }
        let next = arena.next_of(handle);
        assert(is_store(arena.nodes()) && next == link_in(arena.nodes(), handle));
        next
    }

    /// Takes the node `handle` out of the store and returns its value;
    /// `None` where `handle` names no node.  The store is shared: the
    /// answer is that of the nodes that the mutex held when it was taken.
    pub(crate) fn take(&self, handle: u64) -> (val: Option<T>)
        ensures
            exists|nodes: Map<u64, (T, u64)>| is_store(nodes) && val == value_in(nodes, handle),
    {
        let mut guard = lock(&self.arena);
        let arena = protected(&mut guard);
        let ghost held = arena.nodes();
        proof {
            arena.lemma_nodes();
        }
        let val = match arena.remove(handle) {
            Some((val, _next)) => Some(val),
            None => None,
        };
        assert(is_store(held) && val == value_in(held, handle));
        val
    }

    /// Takes the chain that starts at `head` out of the store, and returns
    /// its values, head first.  The store is shared: the chain is that of
    /// the nodes that the mutex held when it was taken.
    pub(crate) fn take_chain(&self, head: u64) -> (taken: NodeIterator<T>)
        ensures
            exists|nodes: Map<u64, (T, u64)>| is_store(nodes) && taken@ == values(nodes, head),
    {
        let mut guard = lock(&self.arena);
        let arena = protected(&mut guard);
        let ghost held = arena.nodes();
        proof {
            arena.lemma_nodes();
        }
        let taken = arena.take_chain(head);
        assert(is_store(held) && taken@ == values(held, head));
        taken
    }
}

} // verus!
