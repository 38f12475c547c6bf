//! Examples of the claim mutual exclusion pattern, including a claim queue,
//! which allows multiple workers to enqueue work and ensures that exactly one
//! worker is running if there is work to be done.
//!
//! The word of the queue holds the handle of the node that was pushed last
//! and a `FlagU64`: its value is the running total of the sizes that were
//! pushed, its flag is the claim.  Whoever pushes onto an unclaimed queue
//! gets the claim, and has to consume until the queue is found empty, at
//! which moment the claim is released.
use vstd::prelude::*;
use crate::atomic_try_update;
use crate::bits::u63_range;
use crate::bits::FlagU64;
use crate::stack::lemma_pop_all_empties;
use crate::stack::lemma_push_contents;
use crate::stack::lemma_without_chain;
use crate::stack::Chain;
use crate::store::is_store;
use crate::store::values;
use crate::store::Store;
use crate::Atom;
use crate::AtomRecord;
use crate::NodeIterator;

verus! {

/// The size that an element adds to the offset of the queue.
pub trait Countable {
    fn get_count(&self) -> u64;
}

/// What the record of a `WriteOrderingQueue` carries.
pub struct ClaimWord {
    /// The handle of the node that was pushed last; null when the queue is
    /// empty.
    pub next: u64,
    /// The total of the sizes pushed so far, in 63 bits.
    pub offset: nat,
    /// True when somebody holds the claim.
    pub claimed: bool,
}

impl ClaimWord {
    /// The transaction of `push`: the node `node` becomes the head, `size`
    /// is added to the offset, in 63 bits, and the claim is set.
    pub open spec fn push_step(self, node: u64, size: u64) -> ClaimWord {
        ClaimWord {
            next: node,
            offset: ((self.offset + size) as int % u63_range()) as nat,
            claimed: true,
        }
    }

    /// What `push` returns on the record that its transaction replaced:
    /// the offset before the push, and whether the claim was free, in which
    /// case the pusher now holds it.
    pub open spec fn push_result(self) -> (u64, bool) {
        (self.offset as u64, !self.claimed)
    }

    /// The transaction of `consume_or_release_claim`: the chain is
    /// detached, and the claim is released if there was no chain.
    pub open spec fn consume_step(self) -> ClaimWord {
        ClaimWord {
            next: 0,
            offset: self.offset,
            claimed: if self.next == 0 {
                false
            } else {
                self.claimed
            },
        }
    }

    /// What the transaction of `consume_or_release_claim` hands back: the
    /// handle of the chain it detached, whether the claim was set, and
    /// whether the caller still holds it.
    pub open spec fn consume_result(self) -> (u64, bool, bool) {
        (self.next, self.claimed, self.next != 0)
    }
}

/// The record of a `WriteOrderingQueue`.
pub struct CountingClaimHead {
    next: u64,
    /// Number of bytes inserted into this queue so far (according to
    /// `Countable::get_count`).  The flag is the claim bit.  The invariant is
    /// that if the queue is non-empty, then it is claimed by something (so
    /// the claim bit is set).
    count_and_claim: FlagU64,
}

impl View for CountingClaimHead {
    type V = ClaimWord;

    closed spec fn view(&self) -> ClaimWord {
        ClaimWord {
            next: self.next,
            offset: self.count_and_claim.value(),
            claimed: self.count_and_claim.flag(),
        }
    }
}

impl CountingClaimHead {
    /// The offset has 63 bits.
    pub proof fn lemma_offset(self)
        ensures
            self@.offset < u63_range(),
    {
        self.count_and_claim.lemma_bits();
    }

    /// The bit image: the handle in the low half, the count and the claim
    /// in the high half.
    pub closed spec fn image(&self) -> u128 {
        (self.next as int + self.count_and_claim.bits() as int * 0x1_0000_0000_0000_0000) as u128
    }

    /// The record that a bit image stands for.
    pub closed spec fn of_image(w: u128) -> CountingClaimHead {
        CountingClaimHead {
            next: (w as int % 0x1_0000_0000_0000_0000) as u64,
            count_and_claim: FlagU64::from_bits((w as int / 0x1_0000_0000_0000_0000) as u64),
        }
    }

    /// What the record that an image stands for carries: the low half of
    /// the image as the handle; of the high half, the lowest bit as the
    /// claim and the rest as the offset.  The record that the all-zero word
    /// stands for is that of a new queue: empty, offset zero, claim free.
    pub proof fn lemma_image(w: u128)
        ensures
            Self::of_image(w)@ == (ClaimWord {
                next: (w as int % 0x1_0000_0000_0000_0000) as u64,
                offset: (((w as int / 0x1_0000_0000_0000_0000) as u64) / 2) as nat,
                claimed: ((w as int / 0x1_0000_0000_0000_0000) as u64) % 2 == 1,
            }),
            Self::of_image(0)@ == (ClaimWord { next: 0, offset: 0, claimed: false }),
    {
        FlagU64::lemma_from_bits((w as int / 0x1_0000_0000_0000_0000) as u64);
        FlagU64::lemma_from_bits(0);
    }

    /// The transaction of `push`, on a given record.
    pub fn push_on(&mut self, node: u64, size: u64) -> (out: (u64, bool))
        ensures
            final(self)@ == old(self)@.push_step(node, size),
            out == old(self)@.push_result(),
    {
        self.next = node;
        let old_count = self.count_and_claim.get_val();
        let have_claim = !self.count_and_claim.get_flag();
        self.count_and_claim.set_val(old_count.wrapping_add(size));
        // either it was already set to true, or we need to set it to true!
        self.count_and_claim.set_flag(true);
        proof {
            let sum = old_count as int + size as int;
            assert(old_count.wrapping_add(size) as int % u63_range() == sum % u63_range()) by {
                if sum > u64::MAX {
                    assert(old_count.wrapping_add(size) as int == sum - 0x1_0000_0000_0000_0000);
                }
            }
        }
        (old_count, have_claim)
    }

    /// The transaction of `consume_or_release_claim`, on a given record.
    pub fn consume_on(&mut self) -> (out: (bool, (u64, bool, bool)))
        ensures
            (out.0, final(self)@, out.1) == (
                true,
                old(self)@.consume_step(),
                old(self)@.consume_result(),
            ),
    {
        let ret = self.next;
        let had_claim = self.count_and_claim.get_flag();
        self.next = 0;
        if ret == 0 {
            self.count_and_claim.set_flag(false);
            // no longer have claim
            (true, (ret, had_claim, false))
        } else {
            (true, (ret, had_claim, true))
        }
    }

    /// The transaction of `get_offset`, on a given record.
    pub fn offset_on(&self) -> (out: (bool, u64))
        ensures
            out == (false, self@.offset as u64),
            self@.offset < u63_range(),
    {
        (false, self.count_and_claim.get_val())
    }
}

impl AtomRecord<u128> for CountingClaimHead {
    open spec fn word(&self) -> u128 {
        self.image()
    }

    open spec fn of_word(w: u128) -> Self {
        CountingClaimHead::of_image(w)
    }

    fn pack(&self) -> (w: u128) {
        let low: u64 = self.next;
        let high: u64 = self.count_and_claim.to_bits();
        assert((low as u128) | ((high as u128) << 64) == low as u128 + (high as u128)
            * 0x1_0000_0000_0000_0000) by (bit_vector);
        (low as u128) | ((high as u128) << 64)
    }

    fn unpack(w: u128) -> (t: Self) {
        assert(w & 0xffff_ffff_ffff_ffff == w % 0x1_0000_0000_0000_0000) by (bit_vector);
        assert(w >> 64 == w / 0x1_0000_0000_0000_0000) by (bit_vector);
        CountingClaimHead {
            next: (w & 0xffff_ffff_ffff_ffff) as u64,
            count_and_claim: FlagU64::of_bits((w >> 64) as u64),
        }
    }

    proof fn lemma_read_back(self) {
        self.count_and_claim.lemma_bits();
        let low = self.next as int;
        let high = self.count_and_claim.bits() as int;
        assert((low + high * 0x1_0000_0000_0000_0000) % 0x1_0000_0000_0000_0000 == low
            && (low + high * 0x1_0000_0000_0000_0000) / 0x1_0000_0000_0000_0000 == high)
            by (nonlinear_arith)
            requires
                0 <= low < 0x1_0000_0000_0000_0000,
                0 <= high,
        ;
    }
}

/// A multi-producer "claim" queue.
#[verifier::reject_recursive_types(T)]
pub struct WriteOrderingQueue<T> where T: Send + Countable {
    head: Atom<CountingClaimHead, u128>,
    nodes: Store<T>,
}

impl<T> Default for WriteOrderingQueue<T> where T: Send + Countable {
    /// An empty queue: nothing pushed, offset zero, claim free.
    fn default() -> WriteOrderingQueue<T> {
        WriteOrderingQueue { head: Atom::default(), nodes: Store::new() }
    }
}

impl<T> WriteOrderingQueue<T> where T: Send + Countable {
    /// This returns the offset of the write, and true iff we have the claim.
    /// If we have the claim, we are responsible for calling
    /// `consume_or_release_claim` until we manage to release it.
    ///
    /// The result is `push_result` of a record that the queue held: the one
    /// that this push replaced.
    pub fn push(&self, val: T) -> (res: (u64, bool))
        ensures
            exists|before: ClaimWord| res == before.push_result() && before.offset < u63_range(),
            res.0 < u63_range(),
    {
        let size = val.get_count();
        let node = self.nodes.insert(val);
        let replaced = self.head.fetch_update(
            |head: CountingClaimHead| -> (next: Option<CountingClaimHead>)
                ensures
                    next is Some,
                    next->0@ == head@.push_step(node, size)
                {
                    let mut head = head;
                    self.nodes.set_next(node, head.next);
                    let _ = head.push_on(node, size);
                    Some(head)
                },
        );
        let mut before = match replaced {
            Ok(before) => before,
            Err(before) => before,
        };
        proof {
            before.lemma_offset();
        }
        before.push_on(node, size)
    }

    /// This removes everything from the queue, and hands it out in the
    /// order in which it was pushed.  If the queue is already empty, it
    /// releases the claim and returns false.  Only the holder of the claim
    /// may call it.
    ///
    /// The result is that of a chain: its head is the one that the
    /// transaction detached, its nodes are those that the store held when
    /// the chain was taken out.  The iterator holds the contents of the
    /// chain, oldest first, and the claim is kept exactly when there was a
    /// chain, so whoever is told that the claim is released was handed
    /// nothing.
    pub fn consume_or_release_claim(&self) -> (res: (NodeIterator<T>, bool))
        ensures
            exists|chain: Chain<T>|
                is_store(chain.nodes) && res.0@ == chain.contents().reverse() && res.1 == (
                chain.head != 0),
            exists|before: ClaimWord| res.1 == before.consume_result().2,
            !res.1 ==> res.0@.len() == 0,
    {
        let (node, _had_claim, claimed) = atomic_try_update(
            &self.head,
            |head: &mut CountingClaimHead| -> (out: (bool, (u64, bool, bool)))
                ensures
                    (out.0, final(head)@, out.1) == (
                        true,
                        old(head)@.consume_step(),
                        old(head)@.consume_result(),
                    )
                { head.consume_on() },
        );
        let taken = self.nodes.take_chain(node);
        let ghost nodes = choose|nodes: Map<u64, (T, u64)>|
            is_store(nodes) && taken@ == values(nodes, node);
        let handed = taken.rev();
        proof {
            let chain = Chain { head: node, nodes };
            assert(is_store(chain.nodes) && handed@ == chain.contents().reverse() && claimed == (
                chain.head != 0));
        }
        (handed, claimed)
    }

    /// The total of the sizes pushed so far, in 63 bits: the offset of a
    /// record that the queue held.  Nothing is stored.
    pub fn get_offset(&self) -> (offset: u64)
        ensures
            exists|held: ClaimWord| offset == held.offset,
            offset < u63_range(),
    {
        atomic_try_update(
            &self.head,
            |head: &mut CountingClaimHead| -> (out: (bool, u64))
                ensures
                    final(head)@ == old(head)@,
                    out == (false, old(head)@.offset as u64),
                    old(head)@.offset < u63_range()
                { head.offset_on() },
        )
    }
}

/// The state of a queue as one owner would see it: the chain of the nodes
/// that were pushed and not consumed yet, the offset and the claim.
pub struct QueueState<T> {
    pub chain: Chain<T>,
    pub offset: nat,
    pub claimed: bool,
}

/// A transaction on a queue.
pub enum QueueOp<T> {
    /// A push of `val`, of the size `size`, stored under `handle`.
    Push { handle: u64, val: T, size: u64 },
    /// A call of `consume_or_release_claim`.
    Consume,
}

impl<T> QueueState<T> {
    /// A new queue.
    pub open spec fn empty() -> QueueState<T> {
        QueueState { chain: Chain::empty(), offset: 0, claimed: false }
    }

    /// What the record in the word of the queue carries.
    pub open spec fn record(self) -> ClaimWord {
        ClaimWord { next: self.chain.head, offset: self.offset, claimed: self.claimed }
    }

    /// The state that the transaction `op` leaves.
    pub open spec fn after(self, op: QueueOp<T>) -> QueueState<T> {
        match op {
            QueueOp::Push { handle, val, size } => QueueState {
                chain: self.chain.push(handle, val),
                offset: ((self.offset + size) % u63_range()) as nat,
                claimed: true,
            },
            QueueOp::Consume => QueueState {
                chain: self.chain.pop_all(),
                offset: self.offset,
                claimed: if self.chain.head == 0 {
                    false
                } else {
                    self.claimed
                },
            },
        }
    }

    /// What the transaction `op` hands to a consumer: the values of the
    /// queue in the order in which they were pushed, for a `Consume`.
    pub open spec fn hands_out(self, op: QueueOp<T>) -> Seq<T> {
        match op {
            QueueOp::Push { .. } => Seq::empty(),
            QueueOp::Consume => self.chain.contents().reverse(),
        }
    }

    /// One if the transaction `op` gives the claim to its caller: a push
    /// that finds the claim free.
    pub open spec fn grants(self, op: QueueOp<T>) -> nat {
        if op is Push && !self.claimed {
            1
        } else {
            0
        }
    }

    /// One if the transaction `op` takes the claim from its caller: a
    /// `Consume` that finds the queue empty.
    pub open spec fn releases(self, op: QueueOp<T>) -> nat {
        if op is Consume && self.chain.head == 0 {
            1
        } else {
            0
        }
    }

    /// True when `op` may run on this state: a push stores under a handle
    /// that is not null and names no node; only the holder of the claim
    /// consumes.
    pub open spec fn admits(self, op: QueueOp<T>) -> bool {
        match op {
            QueueOp::Push { handle, val, size } => handle != 0 && !self.chain.nodes.contains_key(
                handle,
            ),
            QueueOp::Consume => self.claimed,
        }
    }

    /// The state after the transactions of `ops`, one after the other.
    pub open spec fn run(self, ops: Seq<QueueOp<T>>) -> QueueState<T>
        decreases ops.len(),
    {
        if ops.len() == 0 {
            self
        } else {
            self.run(ops.drop_last()).after(ops.last())
        }
    }

    /// True when each transaction of `ops` may run when its turn comes.
    pub open spec fn admits_all(self, ops: Seq<QueueOp<T>>) -> bool
        decreases ops.len(),
    {
        if ops.len() == 0 {
            true
        } else {
            self.admits_all(ops.drop_last()) && self.run(ops.drop_last()).admits(ops.last())
        }
    }

    /// Everything that the transactions of `ops` hand to consumers, in the
    /// order in which they hand it out.
    pub open spec fn consumed(self, ops: Seq<QueueOp<T>>) -> Seq<T>
        decreases ops.len(),
    {
        if ops.len() == 0 {
            Seq::empty()
        } else {
            self.consumed(ops.drop_last()) + self.run(ops.drop_last()).hands_out(ops.last())
        }
    }

    /// How often the transactions of `ops` give the claim to a caller.
    pub open spec fn granted(self, ops: Seq<QueueOp<T>>) -> nat
        decreases ops.len(),
    {
        if ops.len() == 0 {
            0
        } else {
            self.granted(ops.drop_last()) + self.run(ops.drop_last()).grants(ops.last())
        }
    }

    /// How often the transactions of `ops` take the claim from a caller.
    pub open spec fn released(self, ops: Seq<QueueOp<T>>) -> nat
        decreases ops.len(),
    {
        if ops.len() == 0 {
            0
        } else {
            self.released(ops.drop_last()) + self.run(ops.drop_last()).releases(ops.last())
        }
    }
}

/// The values that the pushes among `ops` push, in their order.
pub open spec fn pushed<T>(ops: Seq<QueueOp<T>>) -> Seq<T>
    decreases ops.len(),
{
    if ops.len() == 0 {
        Seq::empty()
    } else {
        match ops.last() {
            QueueOp::Push { handle, val, size } => pushed(ops.drop_last()).push(val),
            QueueOp::Consume => pushed(ops.drop_last()),
        }
    }
}

/// The sum of the sizes that the pushes among `ops` push.
pub open spec fn pushed_size<T>(ops: Seq<QueueOp<T>>) -> nat
    decreases ops.len(),
{
    if ops.len() == 0 {
        0
    } else {
        match ops.last() {
            QueueOp::Push { handle, val, size } => pushed_size(ops.drop_last()) + size as nat,
            QueueOp::Consume => pushed_size(ops.drop_last()),
        }
    }
}

/// The model follows the word.  The record of the state that a transaction
/// leaves is what the transaction of `push` or of
/// `consume_or_release_claim` makes of the record before it, and what these
/// return is what the model says.
pub proof fn lemma_model_follows_record<T>(state: QueueState<T>, op: QueueOp<T>)
    requires
        state.offset < u63_range(),
    ensures
        state.after(op).offset < u63_range(),
        match op {
            QueueOp::Push { handle, val, size } => {
                &&& state.after(op).record() == state.record().push_step(handle, size)
                &&& state.record().push_result() == (state.offset as u64, state.grants(op) == 1)
            },
            QueueOp::Consume => {
                &&& state.after(op).record() == state.record().consume_step()
                &&& state.record().consume_result() == (
                    state.chain.head,
                    state.claimed,
                    state.releases(op) == 0,
                )
            },
        },
{
}

/// What holds of every state that a new queue can reach.
///
/// * The offset is the sum of the sizes that were pushed, in 63 bits.
/// * While the queue is not empty, the claim is set.
/// * At most one caller holds the claim: the claim was given once more than
///   it was taken back while it is set, and as often while it is free.
/// * Nothing is lost and nothing comes twice: what was handed to the
///   consumers, followed by what is still in the queue, oldest first, is
///   what was pushed, in the order in which it was pushed.
pub proof fn lemma_queue_invariants<T>(ops: Seq<QueueOp<T>>)
    requires
        QueueState::<T>::empty().admits_all(ops),
    ensures
        ({
            let start = QueueState::<T>::empty();
            let end = start.run(ops);
            &&& end.offset == pushed_size(ops) % (u63_range() as nat)
            &&& end.chain.head != 0 ==> end.claimed
            &&& start.granted(ops) == start.released(ops) + if end.claimed {
                1nat
            } else {
                0nat
            }
            &&& start.consumed(ops) + end.chain.contents().reverse() == pushed(ops)
            &&& end.chain.nodes.dom().finite()
            &&& !end.chain.nodes.contains_key(0)
        }),
    decreases ops.len(),
{
    let start = QueueState::<T>::empty();
    if ops.len() == 0 {
        assert(start.chain.contents() =~= Seq::<T>::empty());
        assert(start.consumed(ops) + start.chain.contents().reverse() =~= pushed(ops));
    } else {
        let before = start.run(ops.drop_last());
        let end = start.run(ops);
        lemma_queue_invariants(ops.drop_last());
        match ops.last() {
            QueueOp::Push { handle, val, size } => {
                lemma_push_contents(before.chain, handle, val);
                assert(end.offset == pushed_size(ops) % (u63_range() as nat)) by {
                    let a = pushed_size(ops.drop_last()) as int;
                    let m = u63_range();
                    vstd::arithmetic::div_mod::lemma_add_mod_noop_right(size as int, a, m);
                    assert(((a % m) + size) % m == (a + size) % m);
                }
                assert((seq![val] + before.chain.contents()).reverse()
                    =~= before.chain.contents().reverse().push(val));
                assert(start.consumed(ops.drop_last()) + before.chain.contents().reverse().push(val)
                    =~= (start.consumed(ops.drop_last()) + before.chain.contents().reverse()).push(val));
                assert(start.consumed(ops) =~= start.consumed(ops.drop_last()));
            },
            QueueOp::Consume => {
                lemma_pop_all_empties(before.chain);
                lemma_without_chain(before.chain.nodes, before.chain.head);
                assert(end.chain.contents().reverse() =~= Seq::<T>::empty());
                assert(start.consumed(ops) + end.chain.contents().reverse() =~= start.consumed(
                    ops.drop_last(),
                ) + before.chain.contents().reverse());
            },
        }
    }
}

/// When all is pushed and consumed, all has been dequeued.  After the
/// holder of the claim has found the queue empty, the consumers together
/// were handed exactly what was pushed, in the order in which it was pushed:
/// as many elements as were inserted, and the offset is their total size.
pub proof fn lemma_all_pushed_is_consumed<T>(ops: Seq<QueueOp<T>>)
    requires
        QueueState::<T>::empty().admits_all(ops),
        QueueState::<T>::empty().run(ops).chain.head == 0,
    ensures
        QueueState::<T>::empty().consumed(ops) == pushed(ops),
        QueueState::<T>::empty().consumed(ops).len() == pushed(ops).len(),
        QueueState::<T>::empty().run(ops).offset == pushed_size(ops) % (u63_range() as nat),
{
    lemma_queue_invariants(ops);
    let end = QueueState::<T>::empty().run(ops);
    assert(end.chain.contents() =~= Seq::<T>::empty());
    assert(QueueState::<T>::empty().consumed(ops) + end.chain.contents().reverse()
        =~= QueueState::<T>::empty().consumed(ops));
}

/// The sum of the sizes of the values of `vals`, where `size_of` gives the
/// size of a value.
pub open spec fn total_size<T>(vals: Seq<T>, size_of: spec_fn(T) -> u64) -> nat
    decreases vals.len(),
{
    if vals.len() == 0 {
        0
    } else {
        total_size(vals.drop_last(), size_of) + size_of(vals.last()) as nat
    }
}

/// True when the size that each push among `ops` adds to the offset is the
/// size of the value it pushes: what `get_count` gives for a value is
/// `size_of` of it.
pub open spec fn counts_by<T>(ops: Seq<QueueOp<T>>, size_of: spec_fn(T) -> u64) -> bool {
    forall|i: int|
        0 <= i < ops.len() ==> match #[trigger] ops[i] {
            QueueOp::Push { handle, val, size } => size == size_of(val),
            QueueOp::Consume => true,
        }
}

/// The sizes of two sequences, one after the other, add up.
pub proof fn lemma_total_size_add<T>(a: Seq<T>, b: Seq<T>, size_of: spec_fn(T) -> u64)
    ensures
        total_size(a + b, size_of) == total_size(a, size_of) + total_size(b, size_of),
    decreases b.len(),
{
    if b.len() == 0 {
        assert(a + b =~= a);
    } else {
        lemma_total_size_add(a, b.drop_last(), size_of);
        assert((a + b).drop_last() =~= a + b.drop_last());
        assert((a + b).last() == b.last());
    }
}

/// The sizes of the values that were pushed sum to the sizes that the
/// pushes counted.
pub proof fn lemma_pushed_size<T>(ops: Seq<QueueOp<T>>, size_of: spec_fn(T) -> u64)
    requires
        counts_by(ops, size_of),
    ensures
        total_size(pushed(ops), size_of) == pushed_size(ops),
    decreases ops.len(),
{
    if ops.len() > 0 {
        assert(counts_by(ops.drop_last(), size_of)) by {
            assert forall|i: int| 0 <= i < ops.drop_last().len() implies match #[trigger] ops.drop_last()[i] {
                QueueOp::Push { handle, val, size } => size == size_of(val),
                QueueOp::Consume => true,
            } by {
                assert(ops.drop_last()[i] == ops[i]);
            }
        }
        lemma_pushed_size(ops.drop_last(), size_of);
        let last = ops[ops.len() - 1];
        assert(last == ops.last());
        match last {
            QueueOp::Push { handle, val, size } => {
                assert(pushed(ops).drop_last() =~= pushed(ops.drop_last()));
            },
            QueueOp::Consume => {},
        }
    }
}

/// What is dequeued sums to the offset.  Where each push counts the size of
/// its value, the sizes of all that the consumers were handed, plus the
/// sizes of what is still in the queue, are the sizes that were counted.
/// So once the holder of the claim has found the queue empty, the sizes of
/// the items that were dequeued sum to the offset, in 63 bits.
pub proof fn lemma_consumed_sizes<T>(ops: Seq<QueueOp<T>>, size_of: spec_fn(T) -> u64)
    requires
        QueueState::<T>::empty().admits_all(ops),
        counts_by(ops, size_of),
    ensures
        ({
            let start = QueueState::<T>::empty();
            let end = start.run(ops);
            &&& total_size(start.consumed(ops), size_of) + total_size(
                end.chain.contents().reverse(),
                size_of,
            ) == pushed_size(ops)
            &&& end.offset == pushed_size(ops) % (u63_range() as nat)
            &&& end.chain.head == 0 ==> total_size(start.consumed(ops), size_of) == pushed_size(ops)
                && end.offset == total_size(start.consumed(ops), size_of) % (u63_range() as nat)
        }),
{
    let start = QueueState::<T>::empty();
    let end = start.run(ops);
    lemma_queue_invariants(ops);
    lemma_pushed_size(ops, size_of);
    lemma_total_size_add(start.consumed(ops), end.chain.contents().reverse(), size_of);
    if end.chain.head == 0 {
        assert(end.chain.contents() =~= Seq::<T>::empty());
        assert(end.chain.contents().reverse() =~= Seq::<T>::empty());
    }
}

} // verus!
