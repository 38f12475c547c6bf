//! Primitives that make it easy to implement correct lock-free algorithms.
//!
//! `atomic_try_update` is the main entry point.  It runs a caller-supplied
//! pure transformation on a small record that lives inside one atomic
//! machine word, and commits the transformed record with a compare-and-swap.
//! Each module builds a family of general-purpose algorithms on top of it.
use vstd::prelude::*;
use vstd::std_specs::cmp::PartialEqSpec;
use core::marker::PhantomData;
use crossbeam_utils::atomic::AtomicCell;

use crate::bits::FlagU64;

pub mod barrier;
pub mod bits;
pub mod claim;
pub mod once;
pub mod stack;
pub mod store;

verus! {

/// `AtomicCell` of crossbeam-utils: a cell that threads share.  Nothing is
/// known of what is in it.
#[verifier::external_type_specification]
#[verifier::external_body]
#[verifier::reject_recursive_types(T)]
pub struct ExAtomicCell<T>(AtomicCell<T>);

/// `AtomicCell::new` of crossbeam-utils: a fresh cell that holds `val`.
/// A cell is shared state, so nothing is claimed of what a later read finds.
pub assume_specification<T>[ AtomicCell::<T>::new ](val: T) -> (cell: AtomicCell<T>);

/// True when `==` on `U` is equality of the values, as it is on the
/// integers.  A compare-and-swap tells two words apart by `==`.
pub open spec fn is_plain_equality<U: PartialEq>() -> bool {
    &&& U::obeys_eq_spec()
    &&& forall|a: U, b: U| a.eq_spec(&b) <==> a == b
}

/// `AtomicCell::fetch_update` of crossbeam-utils: the compare-and-swap loop.
/// It loads the cell, hands the value to `f`, and stores what `f` returns if
/// the cell still holds what was loaded; otherwise it starts again with the
/// value it found.  It returns `Ok(previous)` once a store went through, so
/// `f` returned `Some` on `previous`, and `Err(previous)` as soon as `f`
/// returned `None` on `previous`.  `f` may run on any value the cell held.
/// The cell compares values with `==`, so `previous` is the very value that
/// `f` ran on where `==` is equality of the values.
/// The loop is lock-free, not wait-free: it returns only once an attempt of
/// this caller meets no interference.
pub assume_specification<T: Copy + Eq, F>[ AtomicCell::<T>::fetch_update::<F> ](
    cell: &AtomicCell<T>,
    f: F,
) -> (res: Result<T, T>) where F: FnMut(T) -> Option<T>
    requires
        forall|w: T| call_requires(f, (w,)),
        is_plain_equality::<T>(),
    ensures
        match res {
            Ok(previous) => exists|next: T| call_ensures(f, (previous,), Some(next)),
            Err(previous) => call_ensures(f, (previous,), None::<T>),
        },
;

/// `AtomicCell::load` of crossbeam-utils: the value in the cell at this
/// moment.  It runs no code of the caller, so it cannot unwind.
#[verifier::external_body]
fn load_word<U: Copy>(cell: &AtomicCell<U>) -> (w: U)
    opens_invariants none
    no_unwind
{
    cell.load()
}

/// `AtomicCell::store` of crossbeam-utils: puts `w` into the cell.  What
/// was there is a `Copy` value, which has no destructor to run, so the call
/// cannot unwind.
#[verifier::external_body]
fn store_word<U: Copy>(cell: &AtomicCell<U>, w: U)
    opens_invariants none
    no_unwind
{
    cell.store(w)
}

/// A record that can live in an atom: it has a bit image of type `U`, and
/// every `U` stands for some record.
pub trait AtomRecord<U>: Sized {
    /// The bit image of the record.
    spec fn word(&self) -> U;

    /// The record that a bit image stands for.
    spec fn of_word(w: U) -> Self;

    fn pack(&self) -> (w: U)
        ensures
            w == self.word(),
    ;

    fn unpack(w: U) -> (t: Self)
        ensures
            t == Self::of_word(w),
    ;

    /// A record that was stored is the record that is read back.
    proof fn lemma_read_back(self)
        ensures
            Self::of_word(self.word()) == self,
    ;
}

impl AtomRecord<u64> for FlagU64 {
    open spec fn word(&self) -> u64 {
        self.bits()
    }

    open spec fn of_word(w: u64) -> Self {
        FlagU64::from_bits(w)
    }

    fn pack(&self) -> (w: u64) {
        self.to_bits()
    }

    fn unpack(w: u64) -> (t: Self) {
        FlagU64::of_bits(w)
    }

    proof fn lemma_read_back(self) {
        self.lemma_bits();
    }
}

/// A record of type `T` stored in one atomic integer of type `U`.  Use
/// `atomic_try_update` to read or change the record.
#[verifier::reject_recursive_types(U)]
pub struct Atom<T, U> {
    union: PhantomData<T>,
    inner: AtomicCell<U>,
}

impl<T, U> Default for Atom<T, U> where U: Default + Send {
    /// Creates a new atom whose word is the default of `U`: all-zero for the
    /// integer types.
    fn default() -> Self {
        Atom { union: PhantomData, inner: AtomicCell::new(U::default()) }
    }
}

impl<T, U> Atom<T, U> where U: Copy {
    /// The word of an atom that the caller has to itself.
    pub(crate) fn load_owned(&mut self) -> (w: U)
        opens_invariants none
        no_unwind
    {
        load_word(&self.inner)
    }

    /// Replaces the word of an atom that the caller has to itself.
    pub(crate) fn store_owned(&mut self, w: U)
        opens_invariants none
        no_unwind
    {
        store_word(&self.inner, w)
    }
}

impl<T, U> Atom<T, U> where T: AtomRecord<U>, U: Copy + Eq {
    /// Runs the compare-and-swap loop with `step`: on the record that the
    /// atom holds, `step` either gives the record to store or declines.
    /// Returns `Ok` with the record that was replaced, or `Err` with the
    /// record on which `step` declined.
    pub fn fetch_update<F>(&self, step: F) -> (res: Result<T, T>) where F: Fn(T) -> Option<T>
        requires
            forall|t: T| call_requires(step, (t,)),
            is_plain_equality::<U>(),
        ensures
            match res {
                Ok(previous) => exists|w: U, next: T|
                    previous == T::of_word(w) && call_ensures(step, (previous,), Some(next)),
                Err(previous) => exists|w: U|
                    previous == T::of_word(w) && call_ensures(step, (previous,), None::<T>),
            },
    {
        let res = self.inner.fetch_update(
            |w: U| -> (o: Option<U>)
                ensures
                    o is Some ==> exists|next: T|
                        call_ensures(step, (T::of_word(w),), Some(next)) && o == Some(next.word()),
                    o is None ==> call_ensures(step, (T::of_word(w),), None::<T>)
                {
                    match step(T::unpack(w)) {
                        Some(next) => Some(next.pack()),
                        None => None,
                    }
                },
        );
        match res {
            Ok(w) => Ok(T::unpack(w)),
            Err(w) => Err(T::unpack(w)),
        }
    }
}

/// The purity that a transformation owes: the same record always gives the
/// same decision and the same result.
pub open spec fn is_pure<T, R, F: Fn(&mut T) -> (bool, R)>(func: F) -> bool {
    forall|a: &mut T, b: &mut T, x: (bool, R), y: (bool, R)|
        *a == *b && call_ensures(func, (a,), x) && call_ensures(func, (b,), y) ==> x == y
}

/// Runs a transaction on the record in `state`.
///
/// `func` receives a scratch copy of the current record, which it may
/// change, and returns `(commit, result)`.  If `commit` is false nothing is
/// stored.  If it is true, the scratch copy replaces the record, provided
/// that the atom was not changed since the record was read; if it was,
/// `func` runs again on what the atom holds now.  Either way `result` goes
/// back to the caller.
///
/// `func` must be a pure function of the record, as `is_pure` says.  It
/// must accept every record that a word of the atom stands for: it may see
/// a record that another thread has replaced in the meantime.  The words
/// of the atom must be compared by their values, as `is_plain_equality`
/// says, which holds of the integers.  Once the
/// transaction has settled on a record, `func` runs on it one more time to
/// hand out the result, which for a pure function is the result of the run
/// that settled it.
///
/// The atom is shared, so the contract can only say that `result` is what
/// `func` gives on a record that the atom held.
pub fn atomic_try_update<T, U, F, R>(state: &Atom<T, U>, func: F) -> (result: R) where
    T: AtomRecord<U>,
    U: Copy + Eq,
    F: Fn(&mut T) -> (bool, R),

    requires
        forall|t: &mut T| call_requires(func, (t,)),
        is_pure(func),
        is_plain_equality::<U>(),
    ensures
        exists|t: &mut T, commit: bool, w: U|
            *t == T::of_word(w) && call_ensures(func, (t,), (commit, result)),
{
    let res = state.fetch_update(
        |t: T| -> (o: Option<T>)
            ensures
                exists|s: &mut T, commit: bool, r: R|
                    *s == t && call_ensures(func, (s,), (commit, r)) && o == (if commit {
                        Some(*final(s))
                    } else {
                        None
                    })
            {
                let mut scratch = t;
                let (commit, _r) = func(&mut scratch);
                if commit {
                    Some(scratch)
                } else {
                    None
                }
            },
    );
    let mut observed = match res {
        Ok(t) => t,
        Err(t) => t,
    };
    let (_commit, result) = func(&mut observed);
    result
}

/// A linked list node that holds an instance of type `T` and owns the rest
/// of its chain.
pub struct Node<T> {
    pub val: T,
    pub next: Option<Box<Node<T>>>,
}

impl<T> Node<T> {
    /// The values of a chain, head first.
    pub open spec fn chain(link: Option<Box<Node<T>>>) -> Seq<T>
        decreases link,
    {
        match link {
            None => Seq::empty(),
            Some(node) => seq![node.val] + Self::chain(node.next),
        }
    }
}

/// A consuming iterator over a chain of nodes.
///
/// It owns the chain.  Each call of `next` unlinks the head node, frees it
/// and hands out its value; dropping the iterator frees what is left.
pub struct NodeIterator<T> {
    node: Option<Box<Node<T>>>,
}

impl<T> View for NodeIterator<T> {
    type V = Seq<T>;

    /// The values still to come, in the order in which `next` yields them.
    closed spec fn view(&self) -> Seq<T> {
        Node::chain(self.node)
    }
}

/// Frees a chain node by node, so that a long chain needs no deep recursion.
fn free_chain<T>(head: Option<Box<Node<T>>>)
    opens_invariants none
    no_unwind
{
    let mut cur: Option<Box<Node<T>>> = head;
    loop
        decreases Node::chain(cur).len(),
    {
        match cur {
            None => {
                return ;
            },
            Some(boxed) => {
                let node = *boxed;
                cur = node.next;
            },
        }
    }
}

impl<T> NodeIterator<T> {
    /// Takes ownership of the chain that starts at `node`.
    pub fn new(node: Option<Box<Node<T>>>) -> (it: Self)
        ensures
            it@ == Node::chain(node),
    {
        NodeIterator { node }
    }

    /// Yields the value at the head of the chain and frees its node, or
    /// `None` once the chain is empty.
    pub fn next(&mut self) -> (item: Option<T>)
        ensures
            match item {
                None => old(self)@.len() == 0 && final(self)@ == old(self)@,
                Some(val) => old(self)@.len() > 0 && val == old(self)@[0] && final(self)@ == old(
                    self,
                )@.drop_first(),
            },
    {
        let mut head: Option<Box<Node<T>>> = None;
        core::mem::swap(&mut self.node, &mut head);
        match head {
            None => None,
            Some(boxed) => {
                let node = *boxed;
                self.node = node.next;
                assert(old(self)@.drop_first() =~= self@);
                Some(node.val)
            },
        }
    }

    /// Reverses the chain in place: the nodes are relinked one by one, none
    /// is allocated or freed.  The result yields the same values in the
    /// opposite order.
    pub fn rev(self) -> (reversed: Self)
        ensures
            reversed@ == self@.reverse(),
    {
        let ghost all = self@;
        let mut source = self;
        let mut rest: Option<Box<Node<T>>> = None;
        core::mem::swap(&mut source.node, &mut rest);
        let mut done: Option<Box<Node<T>>> = None;
        loop
            invariant
                Node::chain(done).reverse() + Node::chain(rest) == all,
            ensures
                Node::chain(done) == all.reverse(),
            decreases Node::chain(rest).len(),
        {
            match rest {
                None => {
                    proof {
                        assert(Node::chain(done).reverse() =~= all);
                        lemma_reverse_twice(Node::chain(done));
                    }
                    break ;
                },
                Some(mut boxed) => {
                    let ghost before_done = Node::chain(done);
                    let ghost tail = Node::chain(boxed.next);
                    let ghost val = boxed.val;
                    core::mem::swap(&mut boxed.next, &mut done);
                    rest = done;
                    done = Some(boxed);
                    assert(Node::chain(done) =~= seq![val] + before_done);
                    assert(Node::chain(done).reverse() =~= before_done.reverse() + seq![val]);
                    assert(Node::chain(done).reverse() + tail =~= before_done.reverse() + (seq![
                        val,
                    ] + tail));
                },
            }
        }
        NodeIterator { node: done }
    }
}

impl<T> Drop for NodeIterator<T> {
    fn drop(&mut self)
        opens_invariants none
        no_unwind
    {
        let mut head: Option<Box<Node<T>>> = None;
        core::mem::swap(&mut self.node, &mut head);
        free_chain(head);
    }
}

/// Reversing a sequence twice gives the sequence back.
pub proof fn lemma_reverse_twice<T>(s: Seq<T>)
    ensures
        s.reverse().reverse() == s,
{
    assert(s.reverse().reverse() =~= s);
}

/// `rev` is an involution and keeps the elements: reversing what `rev`
/// yields gives the first order back, and both orders hold the same values
/// the same number of times.
pub proof fn lemma_rev_involutive<T>(s: Seq<T>)
    ensures
        s.reverse().reverse() == s,
        s.reverse().len() == s.len(),
        s.reverse().to_multiset() == s.to_multiset(),
{
    lemma_reverse_twice(s);
    s.lemma_reverse_to_multiset();
}

} // verus!
