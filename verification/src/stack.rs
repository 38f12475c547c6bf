//! # Lightweight lock-free stack implementations
//!
//! It is surprisingly difficult to correctly use and implement a lock-free
//! stack that provides the standard push/pop interface.
//!
//! In particular, pop has to follow the link of the head node to obtain the
//! next node in the stack.  It is possible that the target of the link
//! changes in race (due to multiple concurrent stack pops), or even that the
//! old head was popped and freed and then a new entry with the same handle
//! was stored and pushed back on as the head of the stack.  At this point a
//! compare and swap of the old head with the new one would incorrectly
//! succeed, leading to an instance of the "ABA problem."
//!
//! `Stack` avoids this by providing a `pop_all` method that removes
//! everything from the stack atomically.  Its transaction reads nothing but
//! the word it swaps.
//!
//! `NonceStack` uses a nonce to ensure that no pushes have been performed
//! in race with pop.
//!
//! The word of a stack holds the handle of the head node, and is changed
//! by compare-and-swap alone; the nodes are in a store, which a mutex
//! guards.  What a transaction does to the word and to the nodes is a
//! specification function on `Chain`, the state of a stack as one owner
//! would see it; the laws at the end of the module are stated over it.
use vstd::prelude::*;
use crate::atomic_try_update;
use crate::store::is_store;
use crate::store::value_in;
use crate::store::values;
use crate::store::without_chain;
use crate::store::Store;
use crate::Atom;
use crate::AtomRecord;
use crate::NodeIterator;

verus! {

/// The record of a `Stack`: the handle of the head node, null when the
/// stack is empty.
pub struct Head {
    head: u64,
}

impl View for Head {
    type V = u64;

    /// The handle of the head node.
    closed spec fn view(&self) -> u64 {
        self.head
    }
}

impl Head {
    /// The bit image of the record: the handle.
    pub closed spec fn image(&self) -> u64 {
        self.head
    }

    /// The record that a bit image stands for.
    pub closed spec fn of_image(w: u64) -> Head {
        Head { head: w }
    }

    /// The image of a record is the handle it carries, so the record that
    /// the all-zero word stands for carries the null handle: a new stack is
    /// empty.
    pub proof fn lemma_image(w: u64)
        ensures
            Self::of_image(w)@ == w,
            Self::of_image(w).image() == w,
            Self::of_image(0)@ == 0,
    {
    }

    /// The transaction of `push`, on a given record: the node `node`
    /// becomes the head.  The head that it replaces is handed back: the
    /// link of the node has to lead there.
    pub fn push_on(&mut self, node: u64) -> (replaced: u64)
        ensures
            final(self)@ == node,
            replaced == old(self)@,
    {
        let replaced = self.head;
        self.head = node;
        replaced
    }

    /// The transaction of `pop_all`, on a given record: the null handle
    /// replaces the head, which is handed back.
    pub fn pop_all_on(&mut self) -> (out: (bool, u64))
        ensures
            final(self)@ == 0,
            out == (true, old(self)@),
    {
        let ret = self.head;
        self.head = 0;
        (true, ret)
    }
}

impl AtomRecord<u64> for Head {
    open spec fn word(&self) -> u64 {
        self.image()
    }

    open spec fn of_word(w: u64) -> Self {
        Head::of_image(w)
    }

    fn pack(&self) -> (w: u64) {
        self.head
    }

    fn unpack(w: u64) -> (t: Self) {
        Head { head: w }
    }

    proof fn lemma_read_back(self) {
    }
}

/// The state of a stack or of a queue, as one owner would see it: the
/// handle of the head node, and the nodes that pushes have linked and that
/// nobody has taken out since.
pub struct Chain<T> {
    pub head: u64,
    pub nodes: Map<u64, (T, u64)>,
}

impl<T> Chain<T> {
    /// An empty chain in an empty store.
    pub open spec fn empty() -> Chain<T> {
        Chain { head: 0, nodes: Map::empty() }
    }

    /// The values on the chain, head first: the last one pushed comes
    /// first.
    pub open spec fn contents(self) -> Seq<T> {
        values(self.nodes, self.head)
    }

    /// The transaction of a push: a node with the value `val` is stored
    /// under `handle`, what was the head follows it, and it becomes the
    /// head.
    pub open spec fn push(self, handle: u64, val: T) -> Chain<T> {
        Chain { head: handle, nodes: self.nodes.insert(handle, (val, self.head)) }
    }

    /// The value that a pop takes off the chain: that of the head node.
    pub open spec fn top(self) -> Option<T> {
        value_in(self.nodes, self.head)
    }

    /// The state that a pop leaves: what followed the head node is the
    /// head, and the head node is out of the store.  An empty chain stays
    /// as it is.
    pub open spec fn pop(self) -> Chain<T> {
        if self.nodes.contains_key(self.head) {
            Chain { head: self.nodes[self.head].1, nodes: self.nodes.remove(self.head) }
        } else {
            self
        }
    }

    /// The state that the transaction of `pop_all` leaves: the null head,
    /// and the store without the nodes of the chain.
    pub open spec fn pop_all(self) -> Chain<T> {
        Chain { head: 0, nodes: without_chain(self.nodes, self.head) }
    }

    /// The chain after the values of `vals` were pushed one after the
    /// other, each under the handle that `handles` gives for it.
    pub open spec fn push_all(self, handles: Seq<u64>, vals: Seq<T>) -> Chain<T>
        decreases vals.len(),
    {
        if vals.len() == 0 || handles.len() != vals.len() {
            self
        } else {
            self.push_all(handles.drop_last(), vals.drop_last()).push(handles.last(), vals.last())
        }
    }

    /// True when the store can take the nodes `handles` one after the
    /// other: no handle names a node yet, and none comes twice.
    pub open spec fn fresh(self, handles: Seq<u64>) -> bool {
        &&& self.nodes.dom().finite()
        &&& forall|i: int| 0 <= i < handles.len() ==> !self.nodes.contains_key(#[trigger] handles[i])
        &&& forall|i: int, j: int| 0 <= i < j < handles.len() ==> handles[i] != handles[j]
    }
}

/// A stack for many threads.  `push` adds a value; `pop_all` takes every
/// value off the stack at once.
#[verifier::reject_recursive_types(T)]
pub struct Stack<T> where T: Send {
    head: Atom<Head, u64>,
    nodes: Store<T>,
}

impl<T> Default for Stack<T> where T: Send {
    /// An empty stack.
    fn default() -> Self {
        Stack { head: Atom::default(), nodes: Store::new() }
    }
}

impl<T> Stack<T> where T: Send {
    /// Pushes `val`.  The value goes into a node of the store; the
    /// transaction links the node in front of the head that it read and
    /// makes it the head.  A transaction that other pushes overtake runs
    /// again on the head they left, so no push is lost and the last push
    /// to commit is the first value of the next `pop_all`.
    pub fn push(&self, val: T) {
        let node = self.nodes.insert(val);
        let _ = self.head.fetch_update(
            |head: Head| -> (next: Option<Head>)
                ensures
                    next is Some,
                    next->0@ == node
                {
                    let mut head = head;
                    let replaced = head.push_on(node);
                    self.nodes.set_next(node, replaced);
                    Some(head)
                },
        );
    }

    /// Takes every value off the stack.  The transaction swaps the null
    /// handle for the head and follows no link, so it cannot be fooled by a
    /// handle that was reused.  The iterator owns the chain that was
    /// detached and yields its values last pushed first; `rev` gives them in
    /// the order in which they were pushed.
    ///
    /// The result is the contents of a chain: its head is the one that the
    /// transaction detached, its nodes are those that the store held when
    /// the chain was taken out.
    pub fn pop_all(&self) -> (taken: NodeIterator<T>)
        ensures
            exists|chain: Chain<T>| is_store(chain.nodes) && taken@ == chain.contents(),
    {
        let detached = atomic_try_update(
            &self.head,
            |head: &mut Head| -> (out: (bool, u64))
                ensures
                    final(head)@ == 0,
                    out == (true, old(head)@)
                { head.pop_all_on() },
        );
        let taken = self.nodes.take_chain(detached);
        proof {
            let nodes = choose|nodes: Map<u64, (T, u64)>|
                is_store(nodes) && taken@ == values(nodes, detached);
            let chain = Chain { head: detached, nodes };
            assert(is_store(chain.nodes) && taken@ == chain.contents());
        }
        taken
    }
}

/// What the record of a `NonceStack` carries: the handle of the head node,
/// and a nonce that every transaction that commits changes.
pub struct NonceWord {
    pub head: u64,
    pub nonce: u64,
}

impl NonceWord {
    /// The nonce after this one.  It wraps around after 2^64 transactions.
    pub open spec fn next_nonce(self) -> u64 {
        if self.nonce == u64::MAX {
            0
        } else {
            (self.nonce + 1) as u64
        }
    }

    /// The transaction of `push`: the node `node` becomes the head.
    pub open spec fn push_step(self, node: u64) -> NonceWord {
        NonceWord { head: node, nonce: self.next_nonce() }
    }

    /// The transaction of `pop` on a stack whose head node is followed by
    /// `next`: it declines on an empty stack, and else makes `next` the
    /// head.
    pub open spec fn pop_step(self, next: u64) -> Option<NonceWord> {
        if self.head == 0 {
            None
        } else {
            Some(NonceWord { head: next, nonce: self.next_nonce() })
        }
    }
}

/// The record of a `NonceStack`.
pub struct NonceHead {
    head: u64,
    nonce: u64,
}

impl View for NonceHead {
    type V = NonceWord;

    closed spec fn view(&self) -> NonceWord {
        NonceWord { head: self.head, nonce: self.nonce }
    }
}

impl NonceHead {
    /// The bit image: the handle in the low half, the nonce in the high
    /// half.
    pub closed spec fn image(&self) -> u128 {
        (self.head as int + self.nonce as int * 0x1_0000_0000_0000_0000) as u128
    }

    /// The record that a bit image stands for.
    pub closed spec fn of_image(w: u128) -> NonceHead {
        NonceHead {
            head: (w as int % 0x1_0000_0000_0000_0000) as u64,
            nonce: (w as int / 0x1_0000_0000_0000_0000) as u64,
        }
    }

    /// What the record that an image stands for carries: the low half of
    /// the image as the handle, the high half as the nonce.  The record that
    /// the all-zero word stands for carries the null handle: a new stack is
    /// empty.
    pub proof fn lemma_image(w: u128)
        ensures
            Self::of_image(w)@ == (NonceWord {
                head: (w as int % 0x1_0000_0000_0000_0000) as u64,
                nonce: (w as int / 0x1_0000_0000_0000_0000) as u64,
            }),
            Self::of_image(0)@ == (NonceWord { head: 0, nonce: 0 }),
    {
    }

    /// The transaction of `push`, on a given record.  The head that it
    /// replaces is handed back: the link of the node has to lead there.
    pub fn push_on(&mut self, node: u64) -> (replaced: u64)
        ensures
            final(self)@ == old(self)@.push_step(node),
            final(self)@.nonce != old(self)@.nonce,
            replaced == old(self)@.head,
    {
        let replaced = self.head;
        self.nonce = self.nonce.wrapping_add(1);
        self.head = node;
        replaced
    }

    /// The handle of the head node.
    pub fn head(&self) -> (handle: u64)
        ensures
            handle == self@.head,
    {
        self.head
    }

    /// The transaction of `pop`, on a given record, for a head node that is
    /// followed by `next`.  It hands back whether it commits and the handle
    /// of the node that it takes off.
    pub fn pop_on(&mut self, next: u64) -> (out: (bool, u64))
        ensures
            out == (old(self)@.head != 0, old(self)@.head),
            match old(self)@.pop_step(next) {
                Some(popped) => final(self)@ == popped && popped.nonce != old(self)@.nonce,
                None => final(self)@ == old(self)@,
            },
    {
        let ret = self.head;
        if ret == 0 {
            (false, ret)
        } else {
            self.nonce = self.nonce.wrapping_add(1);
            self.head = next;
            (true, ret)
        }
    }
}

impl AtomRecord<u128> for NonceHead {
    open spec fn word(&self) -> u128 {
        self.image()
    }

    open spec fn of_word(w: u128) -> Self {
        NonceHead::of_image(w)
    }

    fn pack(&self) -> (w: u128) {
        let low: u64 = self.head;
        let high: u64 = self.nonce;
        assert((low as u128) | ((high as u128) << 64) == low as u128 + (high as u128)
            * 0x1_0000_0000_0000_0000) by (bit_vector);
        (low as u128) | ((high as u128) << 64)
    }

    fn unpack(w: u128) -> (t: Self) {
        assert(w & 0xffff_ffff_ffff_ffff == w % 0x1_0000_0000_0000_0000) by (bit_vector);
        assert(w >> 64 == w / 0x1_0000_0000_0000_0000) by (bit_vector);
        NonceHead { head: (w & 0xffff_ffff_ffff_ffff) as u64, nonce: (w >> 64) as u64 }
    }

    proof fn lemma_read_back(self) {
        let low = self.head as int;
        let high = self.nonce as int;
        assert((low + high * 0x1_0000_0000_0000_0000) % 0x1_0000_0000_0000_0000 == low
            && (low + high * 0x1_0000_0000_0000_0000) / 0x1_0000_0000_0000_0000 == high)
            by (nonlinear_arith)
            requires
                0 <= low < 0x1_0000_0000_0000_0000,
                0 <= high,
        ;
    }
}

/// A stack with a `pop` that takes one value at a time.
///
/// `pop` has to follow the link of the head node inside its transaction.
/// The nodes are in a store, where a stale handle names no node or another
/// one but never freed memory, so following the link is harmless.  What it
/// reads can be out of date, though: the head may have been popped and its
/// handle reused since.  The nonce tells: every push and every pop changes
/// it, so the compare-and-swap of a transaction that read a stale link
/// fails, as long as the nonce did not go once around meanwhile.
#[verifier::reject_recursive_types(T)]
pub struct NonceStack<T> where T: Send {
    head: Atom<NonceHead, u128>,
    nodes: Store<T>,
}

impl<T> Default for NonceStack<T> where T: Send {
    /// An empty stack.
    fn default() -> NonceStack<T> {
        NonceStack { head: Atom::default(), nodes: Store::new() }
    }
}

impl<T> NonceStack<T> where T: Send {
    /// Pushes `val`.
    pub fn push(&self, val: T) {
        let node = self.nodes.insert(val);
        let _ = self.head.fetch_update(
            |head: NonceHead| -> (next: Option<NonceHead>)
                ensures
                    next is Some,
                    next->0@ == head@.push_step(node)
                {
                    let mut head = head;
                    let replaced = head.push_on(node);
                    self.nodes.set_next(node, replaced);
                    Some(head)
                },
        );
    }

    /// Pops the value that was pushed last, or returns `None` if the stack
    /// is empty.
    ///
    /// The result is the top of a chain: its head is the one that the
    /// transaction replaced, or null where it found the stack empty; its
    /// nodes are those that the store held when the node was taken out.
    pub fn pop(&self) -> (val: Option<T>)
        ensures
            exists|chain: Chain<T>| is_store(chain.nodes) && val == chain.top(),
    {
        let replaced = self.head.fetch_update(
            |head: NonceHead| -> (next: Option<NonceHead>)
                ensures
                    next is None <==> head@.head == 0,
                    next is Some ==> exists|link: u64| head@.pop_step(link) == Some(next->0@)
                {
                    let mut head = head;
                    let link = self.nodes.next_of(head.head());
                    if head.pop_on(link).0 {
                        Some(head)
                    } else {
                        None
                    }
                },
        );
        match replaced {
            Ok(before) => {
                let handle = before.head();
                let val = self.nodes.take(handle);
                proof {
                    let nodes = choose|nodes: Map<u64, (T, u64)>|
                        is_store(nodes) && val == value_in(nodes, handle);
                    let chain = Chain { head: handle, nodes };
                    assert(is_store(chain.nodes) && val == chain.top());
                }
                val
            },
            Err(_) => {
                let val = None;
                proof {
                    let chain = Chain::<T>::empty();
                    assert(is_store(chain.nodes) && val == chain.top());
                }
                val
            },
        }
    }
}

/// A push puts its value in front.  On a store where `handle` names no
/// node yet, the chain after the push holds `val` first and then what it
/// held before.
pub proof fn lemma_push_contents<T>(chain: Chain<T>, handle: u64, val: T)
    requires
        chain.nodes.dom().finite(),
        !chain.nodes.contains_key(handle),
    ensures
        chain.push(handle, val).contents() == seq![val] + chain.contents(),
        chain.push(handle, val).nodes.dom().finite(),
{
    let pushed = chain.push(handle, val);
    assert(pushed.nodes.remove(handle) =~= chain.nodes);
}

/// Pushes pile up in reverse.  After the values of `vals` were pushed in
/// that order, the chain holds them last pushed first, in front of what it
/// held before.
pub proof fn lemma_push_all_contents<T>(chain: Chain<T>, handles: Seq<u64>, vals: Seq<T>)
    requires
        chain.fresh(handles),
        handles.len() == vals.len(),
    ensures
        chain.push_all(handles, vals).contents() == vals.reverse() + chain.contents(),
        chain.push_all(handles, vals).nodes.dom().finite(),
        chain.push_all(handles, vals).nodes.dom() == chain.nodes.dom().union(handles.to_set()),
    decreases vals.len(),
{
    if vals.len() == 0 {
        assert(vals.reverse() + chain.contents() =~= chain.contents());
        assert(chain.nodes.dom().union(handles.to_set()) =~= chain.nodes.dom());
    } else {
        let before = chain.push_all(handles.drop_last(), vals.drop_last());
        lemma_push_all_contents(chain, handles.drop_last(), vals.drop_last());
        assert(!before.nodes.contains_key(handles.last())) by {
            if handles.drop_last().to_set().contains(handles.last()) {
                let i = choose|i: int|
                    0 <= i < handles.drop_last().len() && handles.drop_last()[i] == handles.last();
                assert(handles[i] == handles[handles.len() - 1]);
            }
        }
        lemma_push_contents(before, handles.last(), vals.last());
        assert(vals.reverse() =~= seq![vals.last()] + vals.drop_last().reverse());
        assert(seq![vals.last()] + (vals.drop_last().reverse() + chain.contents())
            =~= vals.reverse() + chain.contents());
        assert(chain.push_all(handles, vals).nodes.dom() =~= chain.nodes.dom().union(
            handles.to_set(),
        )) by {
            assert(handles =~= handles.drop_last().push(handles.last()));
            assert forall|h: u64| handles.to_set().contains(h) <==> handles.drop_last().to_set().contains(h) || h == handles.last() by {
                if handles.to_set().contains(h) {
                    let i = choose|i: int| 0 <= i < handles.len() && handles[i] == h;
                    if i < handles.len() - 1 {
                        assert(handles.drop_last()[i] == h);
                    }
                }
                if handles.drop_last().to_set().contains(h) {
                    let i = choose|i: int| 0 <= i < handles.drop_last().len() && handles.drop_last()[i] == h;
                    assert(handles[i] == h);
                }
                if h == handles.last() {
                    assert(handles[handles.len() - 1] == h);
                }
            }
        }
    }
}

/// Taking a chain out of a store leaves no node of the store under the
/// handle the chain started at, and leaves the store finite.
pub proof fn lemma_without_chain<T>(nodes: Map<u64, (T, u64)>, head: u64)
    requires
        nodes.dom().finite(),
    ensures
        without_chain(nodes, head).dom().finite(),
        without_chain(nodes, head).dom().subset_of(nodes.dom()),
        !without_chain(nodes, head).contains_key(head),
        values(nodes, head).len() + without_chain(nodes, head).dom().len() == nodes.dom().len(),
    decreases nodes.dom().len(),
{
    if nodes.contains_key(head) {
        lemma_without_chain(nodes.remove(head), nodes[head].1);
    }
}

/// `pop_all` empties the stack: what it leaves has no value, and a second
/// `pop_all` finds nothing.
pub proof fn lemma_pop_all_empties<T>(chain: Chain<T>)
    requires
        chain.nodes.dom().finite(),
        !chain.nodes.contains_key(0),
    ensures
        chain.pop_all().contents() == Seq::<T>::empty(),
        chain.pop_all().pop_all() == chain.pop_all(),
{
    lemma_without_chain(chain.nodes, chain.head);
}

/// Push, then pop all.  Whatever the order in which the pushes of the
/// threads commit, a `pop_all` after them drains exactly what was pushed:
/// as many values, each as often as it was pushed, the last one first.
/// The stack is empty afterwards.
pub proof fn lemma_push_all_then_pop_all<T>(handles: Seq<u64>, vals: Seq<T>)
    requires
        handles.len() == vals.len(),
        forall|i: int| 0 <= i < handles.len() ==> handles[i] != 0,
        forall|i: int, j: int| 0 <= i < j < handles.len() ==> handles[i] != handles[j],
    ensures
        Chain::<T>::empty().push_all(handles, vals).contents() == vals.reverse(),
        Chain::<T>::empty().push_all(handles, vals).contents().len() == vals.len(),
        Chain::<T>::empty().push_all(handles, vals).contents().to_multiset()
            == vals.to_multiset(),
        Chain::<T>::empty().push_all(handles, vals).pop_all().contents() == Seq::<T>::empty(),
{
    let start = Chain::<T>::empty();
    assert(start.contents() =~= Seq::<T>::empty());
    lemma_push_all_contents(start, handles, vals);
    assert(vals.reverse() + start.contents() =~= vals.reverse());
    vals.lemma_reverse_to_multiset();
    let full = start.push_all(handles, vals);
    assert(!full.nodes.contains_key(0)) by {
        if handles.to_set().contains(0) {
            let i = choose|i: int| 0 <= i < handles.len() && handles[i] == 0;
        }
    }
    lemma_pop_all_empties(full);
}

/// Last in, first out.  A pop after a push takes the value that was
/// pushed and leaves the chain as it was before the push; in general a pop
/// takes the first of the contents and leaves the rest.
pub proof fn lemma_push_then_pop<T>(chain: Chain<T>, handle: u64, val: T)
    requires
        chain.nodes.dom().finite(),
        !chain.nodes.contains_key(handle),
    ensures
        chain.push(handle, val).top() == Some(val),
        chain.push(handle, val).pop() == chain,
        chain.top() is Some ==> chain.contents() == seq![chain.top()->0] + chain.pop().contents(),
        chain.top() is None ==> chain.contents() == Seq::<T>::empty(),
{
    assert(chain.push(handle, val).nodes.remove(handle) =~= chain.nodes);
}

/// A transaction on a stack.
pub enum StackOp<T> {
    /// A push of `val`, stored under `handle`.
    Push { handle: u64, val: T },
    /// A call of `pop_all`.
    PopAll,
}

impl<T> Chain<T> {
    /// The state that the transaction `op` leaves.
    pub open spec fn after(self, op: StackOp<T>) -> Chain<T> {
        match op {
            StackOp::Push { handle, val } => self.push(handle, val),
            StackOp::PopAll => self.pop_all(),
        }
    }

    /// What the transaction `op` hands to its caller: the contents of the
    /// stack, last pushed first, for a `PopAll`.
    pub open spec fn hands_out(self, op: StackOp<T>) -> Seq<T> {
        match op {
            StackOp::Push { .. } => Seq::empty(),
            StackOp::PopAll => self.contents(),
        }
    }

    /// True when `op` may run on this state: a push stores under a handle
    /// that is not null and names no node.
    pub open spec fn admits(self, op: StackOp<T>) -> bool {
        match op {
            StackOp::Push { handle, val } => handle != 0 && !self.nodes.contains_key(handle),
            StackOp::PopAll => true,
        }
    }

    /// The state after the transactions of `ops`, one after the other: the
    /// order in which they commit, whichever threads they come from.
    pub open spec fn run(self, ops: Seq<StackOp<T>>) -> Chain<T>
        decreases ops.len(),
    {
        if ops.len() == 0 {
            self
        } else {
            self.run(ops.drop_last()).after(ops.last())
        }
    }

    /// True when each transaction of `ops` may run when its turn comes.
    pub open spec fn admits_all(self, ops: Seq<StackOp<T>>) -> bool
        decreases ops.len(),
    {
        if ops.len() == 0 {
            true
        } else {
            self.admits_all(ops.drop_last()) && self.run(ops.drop_last()).admits(ops.last())
        }
    }

    /// Everything that the calls of `pop_all` among `ops` hand out, one
    /// iterator after the other.
    pub open spec fn drained(self, ops: Seq<StackOp<T>>) -> Seq<T>
        decreases ops.len(),
    {
        if ops.len() == 0 {
            Seq::empty()
        } else {
            self.drained(ops.drop_last()) + self.run(ops.drop_last()).hands_out(ops.last())
        }
    }
}

/// The values that the pushes among `ops` push, in their order.
pub open spec fn pushed_values<T>(ops: Seq<StackOp<T>>) -> Seq<T>
    decreases ops.len(),
{
    if ops.len() == 0 {
        Seq::empty()
    } else {
        match ops.last() {
            StackOp::Push { handle, val } => pushed_values(ops.drop_last()).push(val),
            StackOp::PopAll => pushed_values(ops.drop_last()),
        }
    }
}

/// Nothing is lost and nothing comes twice.  Take any pushes of any
/// threads on a new stack, with calls of `pop_all` in between, in the order
/// in which they commit.  Then what the iterators handed out, together with
/// what is still on the stack, is what was pushed: the same values, each as
/// often as it was pushed, and as many in all.  So a `pop_all` that comes
/// after all the pushes hands out exactly what was pushed and not handed
/// out before.
pub proof fn lemma_stack_loses_nothing<T>(ops: Seq<StackOp<T>>)
    requires
        Chain::<T>::empty().admits_all(ops),
    ensures
        ({
            let start = Chain::<T>::empty();
            let end = start.run(ops);
            &&& start.drained(ops).to_multiset().add(end.contents().to_multiset())
                == pushed_values(ops).to_multiset()
            &&& start.drained(ops).len() + end.contents().len() == pushed_values(ops).len()
            &&& end.hands_out(StackOp::PopAll) == end.contents()
            &&& end.after(StackOp::PopAll).contents() == Seq::<T>::empty()
            &&& is_store(end.nodes)
        }),
    decreases ops.len(),
{
    broadcast use vstd::seq_lib::lemma_multiset_commutative;

    let start = Chain::<T>::empty();
    let end = start.run(ops);
    Seq::<T>::empty().to_multiset_ensures();
    assert(Seq::<T>::empty().to_multiset() =~= vstd::multiset::Multiset::empty());
    if ops.len() == 0 {
        assert(end.contents() =~= Seq::<T>::empty());
    } else {
        let before = start.run(ops.drop_last());
        lemma_stack_loses_nothing(ops.drop_last());
        match ops.last() {
            StackOp::Push { handle, val } => {
                lemma_push_contents(before, handle, val);
                pushed_values(ops.drop_last()).to_multiset_ensures();
                assert(seq![val] =~= Seq::<T>::empty().push(val));
                assert(end.contents().to_multiset() =~= before.contents().to_multiset().insert(
                    val,
                ));
            },
            StackOp::PopAll => {
                lemma_pop_all_empties(before);
                lemma_without_chain(before.nodes, before.head);
            },
        }
        assert(start.drained(ops).to_multiset().add(end.contents().to_multiset())
            =~= pushed_values(ops).to_multiset());
    }
    lemma_pop_all_empties(end);
}

} // verus!
