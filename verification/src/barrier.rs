//! User-friendly barriers that use `atomic_try_update` to handle startup and
//! teardown race conditions.
//!
//! The state of a barrier is one `FlagU64`: the value counts the workers that
//! have not finished, the flag says that the work was cancelled.  Each
//! operation is one transaction on that word.  What a transaction does to a
//! given word is a specification function of this module (`spawn_step`,
//! `cancel_step`, `done_step`, `wait_step`); what holds of every sequence of
//! transactions is proved at the end of the module.
use vstd::prelude::*;
use crate::atomic_try_update;
use crate::bits::FlagU64;
use crate::bits::FlagWord;
use crate::bits::u63_range;
use crate::Atom;
use tokio::sync::broadcast::Receiver;
use tokio::sync::broadcast::Sender;
use tokio::sync::broadcast::error::SendError;

verus! {

/// `Sender` of a tokio broadcast channel.  Nothing is known of what is in
/// it.
#[verifier::external_type_specification]
#[verifier::external_body]
#[verifier::reject_recursive_types(T)]
pub struct ExSender<T>(Sender<T>);

/// `Receiver` of a tokio broadcast channel.  Nothing is known of what is in
/// it.
#[verifier::external_type_specification]
#[verifier::external_body]
#[verifier::reject_recursive_types(T)]
pub struct ExReceiver<T>(Receiver<T>);

/// `SendError` of a tokio broadcast channel: the value that could not be
/// sent.  Nothing is known of what is in it.
#[verifier::external_type_specification]
#[verifier::external_body]
#[verifier::reject_recursive_types(T)]
pub struct ExSendError<T>(SendError<T>);

/// `tokio::sync::broadcast::channel`: a new channel that retains up to
/// `capacity` messages.  Tokio panics on a capacity of zero or above
/// `usize::MAX / 2`, so those are left out.
pub assume_specification<T: Clone>[ tokio::sync::broadcast::channel::<T> ](capacity: usize) -> (ends: (
    Sender<T>,
    Receiver<T>,
))
    requires
        0 < capacity <= usize::MAX / 2,
;

/// `Sender::send` of a tokio broadcast channel: hands `value` to every
/// receiver that is subscribed now.  It fails, giving the value back, when
/// there is none; how many there are depends on the other threads, so
/// nothing is claimed of the result.
pub assume_specification<T>[ Sender::<T>::send ](tx: &Sender<T>, value: T) -> (res: Result<
    usize,
    SendError<T>,
>);

/// `Sender::subscribe` of a tokio broadcast channel: a new receiver, which
/// sees the values sent after this call.  Tokio gives up when a channel has
/// `usize::MAX / 4` receivers at once, which no caller can tell beforehand.
pub assume_specification<T>[ Sender::<T>::subscribe ](tx: &Sender<T>) -> (rx: Receiver<T>);

/// What `wait` learned of the work.
pub struct ShutdownBarrierWaitResult {
    cancelled: bool,
}

/// What `done` learned of the work.
pub struct ShutdownBarrierDoneResult {
    cancelled: bool,
    shutdown_leader: bool,
}

impl ShutdownBarrierWaitResult {
    pub closed spec fn cancelled(&self) -> bool {
        self.cancelled
    }

    /// This will return true for all waiters if at least one
    /// waiter called `cancel()` before shutdown.
    pub fn is_cancelled(&self) -> (b: bool)
        ensures
            b == self.cancelled(),
    {
        self.cancelled
    }
}

impl ShutdownBarrierDoneResult {
    pub closed spec fn cancelled(&self) -> bool {
        self.cancelled
    }

    pub closed spec fn leader(&self) -> bool {
        self.shutdown_leader
    }

    pub fn is_cancelled(&self) -> (b: bool)
        ensures
            b == self.cancelled(),
    {
        self.cancelled
    }

    pub fn is_leader(&self) -> (b: bool)
        ensures
            b == self.leader(),
    {
        self.shutdown_leader
    }
}

/// What a waiter finds when it reads the state of the barrier.
#[derive(Debug, Clone, Copy, PartialEq, Eq, Structural)]
pub enum WaitResult {
    StillRunning,
    Shutdown,
    Cancelled,
}

/// What a finishing worker finds when it reads the state of the barrier.
#[derive(Debug, Clone, Copy, PartialEq, Eq, Structural)]
pub enum DoneResult {
    Cancelled,
    AlreadyDone,
    ShutdownLeader,
    Running,
}

#[derive(Debug, Clone, Copy, PartialEq, Eq, Structural)]
pub enum ShutdownBarrierError {
    AlreadyShutdown,
}

impl ShutdownBarrierError {
    /// The name of the error, as text.
    pub open spec fn text(&self) -> Seq<char> {
        "AlreadyShutdown"@
    }

    /// The name of the error.
    pub fn to_string(&self) -> (text: String)
        ensures
            text@ == self.text(),
    {
        "AlreadyShutdown".to_owned()
    }
}

/// True when no worker can be added and the work cannot be cancelled any
/// more: the work was cancelled, or every worker is done.
pub open spec fn is_shutdown(s: FlagWord) -> bool {
    s.flag || s.value == 0
}

/// The transaction of `spawn` on the word `s`: whether it commits, the word
/// it would store, and whether the barrier was shut down already.  The
/// count has 63 bits.
pub open spec fn spawn_step(s: FlagWord) -> (bool, FlagWord, bool) {
    if is_shutdown(s) {
        (false, s, true)
    } else {
        (true, s.with_val(((s.value + 1) as int % u63_range()) as nat), false)
    }
}

/// The transaction of `cancel` on the word `s`: whether it commits, the word
/// it would store, and whether the barrier was shut down already.
pub open spec fn cancel_step(s: FlagWord) -> (bool, FlagWord, bool) {
    if is_shutdown(s) {
        (false, s, true)
    } else {
        (true, s.with_flag(true), false)
    }
}

/// The count that `done` leaves: one less, and zero stays zero.
pub open spec fn decremented(count: nat) -> nat {
    if count == 0 {
        0
    } else {
        (count - 1) as nat
    }
}

/// The transaction of `done` on the word `s`: whether it commits, the word
/// it would store, and what the worker found.
///
/// A cancelled barrier still counts its workers down.  A barrier that is
/// not cancelled and has no worker left is not touched: the transaction
/// does not commit.
pub open spec fn done_step(s: FlagWord) -> (bool, FlagWord, DoneResult) {
    let counted_down = s.with_val(decremented(s.value));
    if s.flag {
        (true, counted_down, DoneResult::Cancelled)
    } else if s.value == 0 {
        (false, counted_down, DoneResult::AlreadyDone)
    } else if s.value == 1 {
        (true, counted_down, DoneResult::ShutdownLeader)
    } else {
        (true, counted_down, DoneResult::Running)
    }
}

/// The transaction of `wait` on the word `s`.  It never commits.
pub open spec fn wait_step(s: FlagWord) -> (bool, FlagWord, WaitResult) {
    if s.flag {
        (false, s, WaitResult::Cancelled)
    } else if s.value == 0 {
        (false, s, WaitResult::Shutdown)
    } else {
        (false, s, WaitResult::StillRunning)
    }
}

/// What `spawn` and `cancel` return for the flag that their transaction
/// gives.
pub open spec fn shutdown_outcome(already_shutdown: bool) -> Result<(), ShutdownBarrierError> {
    if already_shutdown {
        Err(ShutdownBarrierError::AlreadyShutdown)
    } else {
        Ok(())
    }
}

/// True when `done` returns `res` for what its transaction found.
pub open spec fn is_done_outcome(
    found: DoneResult,
    res: Result<ShutdownBarrierDoneResult, ShutdownBarrierError>,
) -> bool {
    match found {
        DoneResult::Cancelled => res is Ok && res->Ok_0.cancelled() && !res->Ok_0.leader(),
        DoneResult::ShutdownLeader => res is Ok && !res->Ok_0.cancelled() && res->Ok_0.leader(),
        DoneResult::Running => res is Ok && !res->Ok_0.cancelled() && !res->Ok_0.leader(),
        DoneResult::AlreadyDone => res == Err::<ShutdownBarrierDoneResult, _>(
            ShutdownBarrierError::AlreadyShutdown,
        ),
    }
}

/// True when `wait` returns `res` for what its transaction found and, where
/// it had to wait, for the message that came: `Some(true)` for a
/// cancellation, `Some(false)` for a normal shutdown, `None` when the
/// channel was closed or the message was lost.
pub open spec fn is_wait_outcome(
    found: WaitResult,
    message: Option<bool>,
    res: Result<ShutdownBarrierWaitResult, ShutdownBarrierError>,
) -> bool {
    match found {
        WaitResult::Cancelled => res is Ok && res->Ok_0.cancelled(),
        WaitResult::Shutdown => res is Ok && !res->Ok_0.cancelled(),
        WaitResult::StillRunning => match message {
            Some(cancelled) => res is Ok && res->Ok_0.cancelled() == cancelled,
            None => res == Err::<ShutdownBarrierWaitResult, _>(
                ShutdownBarrierError::AlreadyShutdown,
            ),
        },
    }
}

/// Similar to `tokio::sync::Barrier`, but you don't need to know how
/// many waiters there will be up front.  It starts with one waiter,
/// and more can be added dynamically with `spawn()` (which will return
/// an error if invoked after shutdown).
///
/// This barrier's API handles two commonly-overlooked race conditions:
///
///  - It is OK to listen for completion before the first worker
///    starts execution.  The wait will not finish until all the
///    workers that spawn complete.
///  - It is OK to start listening for completion after the last
///    worker exits.  In this case, the wait will immediately
///    complete.
///
/// You can also invoke `cancel()`, which causes the wait result's
/// `is_cancelled()` method to return true for all waiters.
pub struct ShutdownBarrier {
    state: Atom<FlagU64, u64>,
    /// We send false for normal shutdown; true for cancellation
    broadcast: Sender<bool>,
}

impl ShutdownBarrier {
    /// The transaction of `spawn`, on a given word.
    pub fn spawn_on(s: &mut FlagU64) -> (out: (bool, bool))
        ensures
            (out.0, final(s)@, out.1) == spawn_step(old(s)@),
    {
        let count = s.get_val();
        if s.get_flag() || count == 0 {
            // already shutdown
            (false, true)
        } else {
            s.set_val(count + 1);
            (true, false)
        }
    }

    /// The transaction of `cancel`, on a given word.
    pub fn cancel_on(s: &mut FlagU64) -> (out: (bool, bool))
        ensures
            (out.0, final(s)@, out.1) == cancel_step(old(s)@),
    {
        let count = s.get_val();
        if s.get_flag() || count == 0 {
            (false, true)
        } else {
            s.set_flag(true);
            (true, false)
        }
    }

    /// The transaction of `done`, on a given word.
    pub fn done_on(s: &mut FlagU64) -> (out: (bool, DoneResult))
        ensures
            (out.0, final(s)@, out.1) == done_step(old(s)@),
    {
        let count = s.get_val();
        s.set_val(count.saturating_sub(1));
        if s.get_flag() {
            (true, DoneResult::Cancelled)
        } else if count == 0 {
            (false, DoneResult::AlreadyDone)
        } else if count == 1 {
            (true, DoneResult::ShutdownLeader)
        } else {
            (true, DoneResult::Running)
        }
    }

    /// The transaction of `wait`, on a given word.
    pub fn wait_on(s: &mut FlagU64) -> (out: (bool, WaitResult))
        ensures
            (out.0, final(s)@, out.1) == wait_step(old(s)@),
    {
        let count = s.get_val();
        if s.get_flag() {
            (false, WaitResult::Cancelled)
        } else if count == 0 {
            (false, WaitResult::Shutdown)
        } else {
            (false, WaitResult::StillRunning)
        }
    }

    /// What `done` returns for what its transaction found.
    pub fn done_outcome(found: DoneResult) -> (res: Result<
        ShutdownBarrierDoneResult,
        ShutdownBarrierError,
    >)
        ensures
            is_done_outcome(found, res),
    {
        match found {
            DoneResult::Cancelled => Ok(
                ShutdownBarrierDoneResult { cancelled: true, shutdown_leader: false },
            ),
            DoneResult::ShutdownLeader => Ok(
                ShutdownBarrierDoneResult { cancelled: false, shutdown_leader: true },
            ),
            DoneResult::Running => Ok(
                ShutdownBarrierDoneResult { cancelled: false, shutdown_leader: false },
            ),
            DoneResult::AlreadyDone => Err(ShutdownBarrierError::AlreadyShutdown),
        }
    }

    /// What a wait returns for what `poll` found and, where the work was
    /// still running, for the message that the subscription brought: `None`
    /// stands for a subscription that ended without one.
    pub fn wait_outcome(found: WaitResult, message: Option<bool>) -> (res: Result<
        ShutdownBarrierWaitResult,
        ShutdownBarrierError,
    >)
        ensures
            is_wait_outcome(found, message, res),
    {
        match found {
            WaitResult::StillRunning => match message {
                Some(cancelled) => Ok(ShutdownBarrierWaitResult { cancelled }),
                None => Err(ShutdownBarrierError::AlreadyShutdown),
            },
            WaitResult::Shutdown => Ok(ShutdownBarrierWaitResult { cancelled: false }),
            WaitResult::Cancelled => Ok(ShutdownBarrierWaitResult { cancelled: true }),
        }
    }

    /// Register another worker with the barrier.
    ///
    /// Returns an error if the barrier has already been completed.  The
    /// barrier starts with one worker (the one that is the parent of all
    /// work), so this will never happen if you are careful not to invoke
    /// `spawn()` after the parent task invokes `done()`.
    ///
    /// The result is that of `spawn_step` on a word that the barrier held.
    pub fn spawn(&self) -> (res: Result<(), ShutdownBarrierError>)
        ensures
            exists|s: FlagWord| res == shutdown_outcome(spawn_step(s).2),
    {
        let already_shutdown = atomic_try_update(
            &self.state,
            |s: &mut FlagU64| -> (out: (bool, bool))
                ensures
                    (out.0, final(s)@, out.1) == spawn_step(old(s)@)
                { Self::spawn_on(s) },
        );
        if already_shutdown {
            Err(ShutdownBarrierError::AlreadyShutdown)
        } else {
            Ok(())
        }
    }

    /// Inform the barrier that whatever work all the workers are performing
    /// has been cancelled.  Every waiter is told so: those that wait at this
    /// moment by a message, those that come later by the state.
    ///
    /// The result is that of `cancel_step` on a word that the barrier held.
    pub fn cancel(&self) -> (res: Result<(), ShutdownBarrierError>)
        ensures
            exists|s: FlagWord| res == shutdown_outcome(cancel_step(s).2),
    {
        let already_shutdown = atomic_try_update(
            &self.state,
            |s: &mut FlagU64| -> (out: (bool, bool))
                ensures
                    (out.0, final(s)@, out.1) == cancel_step(old(s)@)
                { Self::cancel_on(s) },
        );
        if already_shutdown {
            Err(ShutdownBarrierError::AlreadyShutdown)
        } else {
            // send true for cancellation; false on success
            let _ = self.broadcast.send(true);
            Ok(())
        }
    }

    /// Inform the barrier that a single worker has completed.
    ///
    /// The result has `is_cancelled() == true` if the pool of work protected
    /// by the barrier was cancelled, and `is_leader() == true` if this call
    /// to `done()` was the one that completed the pool of work.  Workers can
    /// check for the leader to perform clean up logic outside the thread of
    /// control that invokes `done()`.
    ///
    /// The result is that of `done_step` on a word that the barrier held.
    pub fn done(&self) -> (res: Result<ShutdownBarrierDoneResult, ShutdownBarrierError>)
        ensures
            exists|s: FlagWord| is_done_outcome(done_step(s).2, res),
    {
        let done_result = atomic_try_update(
            &self.state,
            |s: &mut FlagU64| -> (out: (bool, DoneResult))
                ensures
                    (out.0, final(s)@, out.1) == done_step(old(s)@)
                { Self::done_on(s) },
        );
        match done_result {
            DoneResult::ShutdownLeader => {
                let _ = self.broadcast.send(false);
            },
            _ => {},
        }
        Self::done_outcome(done_result)
    }

    /// Subscribes to the message that ends the work: `true` for a
    /// cancellation, `false` when the last worker is done.  A waiter has to
    /// subscribe before it calls `poll`: otherwise that message could be
    /// sent between the two.
    pub fn subscribe(&self) -> (rx: Receiver<bool>) {
        self.broadcast.subscribe()
    }

    /// Reads the state for a waiter, without changing it.  A waiter that
    /// finds `StillRunning` goes on to await one message on the subscription
    /// that it made before; the others are done.
    ///
    /// The result is that of `wait_step` on a word that the barrier held.
    pub fn poll(&self) -> (found: WaitResult)
        ensures
            exists|s: FlagWord| found == wait_step(s).2,
    {
        atomic_try_update(
            &self.state,
            |s: &mut FlagU64| -> (out: (bool, WaitResult))
                ensures
                    (out.0, final(s)@, out.1) == wait_step(old(s)@)
                { Self::wait_on(s) },
        )
    }

    /// Returns a new shutdown barrier with a single worker.  The caller
    /// should `spawn()` all the work that needs to be done, then invoke
    /// `done()`.  This makes sure the worker count doesn't spuriously
    /// reach zero while work is being spawned.
    pub fn new() -> Self {
        let this = ShutdownBarrier {
            state: Atom::default(),
            broadcast: tokio::sync::broadcast::channel(1).0,
        };
        atomic_try_update(
            &this.state,
            |s: &mut FlagU64| -> (out: (bool, ()))
                ensures
                    final(s)@ == old(s)@.with_val(1),
                    out == (true, ())
                {
                    s.set_val(1);
                    (true, ())
                },
        );
        this
    }
}

impl Default for ShutdownBarrier {
    fn default() -> Self {
        ShutdownBarrier::new()
    }
}

/// An operation that changes the state of a barrier.
#[derive(Debug, Clone, Copy, PartialEq, Eq, Structural)]
pub enum BarrierOp {
    Spawn,
    Cancel,
    Done,
}

/// The word of a barrier as `new` leaves it: one worker, not cancelled.
pub open spec fn initial_word() -> FlagWord {
    FlagWord { value: 1, flag: false }
}

/// The word that the transaction of `op` leaves when it runs on `s`.
pub open spec fn after(s: FlagWord, op: BarrierOp) -> FlagWord {
    match op {
        BarrierOp::Spawn => if spawn_step(s).0 {
            spawn_step(s).1
        } else {
            s
        },
        BarrierOp::Cancel => if cancel_step(s).0 {
            cancel_step(s).1
        } else {
            s
        },
        BarrierOp::Done => if done_step(s).0 {
            done_step(s).1
        } else {
            s
        },
    }
}

/// The word after the transactions of `ops` ran one after the other,
/// starting from `s`.  Every execution of a barrier, however its callers
/// interleave, is such a sequence: each transaction takes effect at its
/// successful compare-and-swap.
pub open spec fn run(s: FlagWord, ops: Seq<BarrierOp>) -> FlagWord
    decreases ops.len(),
{
    if ops.len() == 0 {
        s
    } else {
        after(run(s, ops.drop_last()), ops.last())
    }
}

/// One if `op`, run on `s`, is a `spawn` that registers a worker.
pub open spec fn registers(s: FlagWord, op: BarrierOp) -> nat {
    if op == BarrierOp::Spawn && !spawn_step(s).2 {
        1
    } else {
        0
    }
}

/// One if `op`, run on `s`, is a `done` that the barrier accepts.
pub open spec fn retires(s: FlagWord, op: BarrierOp) -> nat {
    if op == BarrierOp::Done && done_step(s).2 != DoneResult::AlreadyDone {
        1
    } else {
        0
    }
}

/// One if `op`, run on `s`, is a `done` that reports the leader.
pub open spec fn leads(s: FlagWord, op: BarrierOp) -> nat {
    if op == BarrierOp::Done && done_step(s).2 == DoneResult::ShutdownLeader {
        1
    } else {
        0
    }
}

/// How many workers the calls of `spawn` among `ops` registered.
pub open spec fn spawned(s: FlagWord, ops: Seq<BarrierOp>) -> nat
    decreases ops.len(),
{
    if ops.len() == 0 {
        0
    } else {
        spawned(s, ops.drop_last()) + registers(run(s, ops.drop_last()), ops.last())
    }
}

/// How many calls of `done` among `ops` the barrier accepted.
pub open spec fn finished(s: FlagWord, ops: Seq<BarrierOp>) -> nat
    decreases ops.len(),
{
    if ops.len() == 0 {
        0
    } else {
        finished(s, ops.drop_last()) + retires(run(s, ops.drop_last()), ops.last())
    }
}

/// How many calls of `done` among `ops` reported the leader.
pub open spec fn leaders(s: FlagWord, ops: Seq<BarrierOp>) -> nat
    decreases ops.len(),
{
    if ops.len() == 0 {
        0
    } else {
        leaders(s, ops.drop_last()) + leads(run(s, ops.drop_last()), ops.last())
    }
}

/// What one transaction does to the count and the flag, as long as the
/// count has room to grow.
pub proof fn lemma_after(s: FlagWord, op: BarrierOp)
    requires
        s.value + 1 < u63_range(),
    ensures
        after(s, op).value <= s.value + 1,
        s.flag ==> after(s, op).flag,
        op != BarrierOp::Cancel ==> after(s, op).flag == s.flag,
        op == BarrierOp::Cancel && !is_shutdown(s) ==> after(s, op).flag,
        !s.flag ==> after(s, op).value + retires(s, op) == s.value + registers(s, op),
        leads(s, op) == 1 <==> op == BarrierOp::Done && !s.flag && s.value == 1,
        !s.flag && s.value == 0 ==> after(s, op) == s,
{
}

/// Counts are conserved.  Start from a new barrier and run any sequence of
/// `spawn` and `done`: the workers that are left, plus the calls of `done`
/// that were accepted, are the workers that were registered, plus the one
/// the barrier started with.  So a `done` is accepted, and returns `Ok`,
/// exactly as long as there were fewer of them than workers, and the count
/// is zero exactly when there was one `done` for each `spawn` and one for
/// the initial worker.
pub proof fn lemma_counts_conserved(ops: Seq<BarrierOp>)
    requires
        ops.len() + 2 < u63_range(),
        forall|i: int| 0 <= i < ops.len() ==> ops[i] != BarrierOp::Cancel,
    ensures
        !run(initial_word(), ops).flag,
        run(initial_word(), ops).value + finished(initial_word(), ops) == 1 + spawned(
            initial_word(),
            ops,
        ),
        run(initial_word(), ops).value <= 1 + ops.len(),
        run(initial_word(), ops).value == 0 <==> finished(initial_word(), ops) == 1 + spawned(
            initial_word(),
            ops,
        ),
        retires(run(initial_word(), ops), BarrierOp::Done) == 1 <==> finished(initial_word(), ops)
            < 1 + spawned(initial_word(), ops),
        forall|res: Result<ShutdownBarrierDoneResult, ShutdownBarrierError>|
            finished(initial_word(), ops) < 1 + spawned(initial_word(), ops) && is_done_outcome(
                done_step(run(initial_word(), ops)).2,
                res,
            ) ==> res is Ok && !res->Ok_0.cancelled(),
    decreases ops.len(),
{
    if ops.len() > 0 {
        lemma_counts_conserved(ops.drop_last());
        lemma_after(run(initial_word(), ops.drop_last()), ops.last());
    }
}

/// Counts are conserved however long the barrier lives.  The count has 63
/// bits, so after 2^63 registrations it starts again at zero; in 63 bits the
/// balance of the law above holds of every sequence of `spawn` and `done`.
pub proof fn lemma_counts_conserved_in_63_bits(ops: Seq<BarrierOp>)
    requires
        forall|i: int| 0 <= i < ops.len() ==> ops[i] != BarrierOp::Cancel,
    ensures
        !run(initial_word(), ops).flag,
        run(initial_word(), ops).value < u63_range(),
        (run(initial_word(), ops).value + finished(initial_word(), ops)) % (u63_range() as nat)
            == (1 + spawned(initial_word(), ops)) % (u63_range() as nat),
    decreases ops.len(),
{
    if ops.len() > 0 {
        lemma_counts_conserved_in_63_bits(ops.drop_last());
        let before = run(initial_word(), ops.drop_last());
        let f = finished(initial_word(), ops.drop_last()) as int;
        let sp = spawned(initial_word(), ops.drop_last()) as int;
        let c = before.value as int;
        let m = u63_range();
        if ops.last() == BarrierOp::Spawn && !is_shutdown(before) {
            let c2 = run(initial_word(), ops).value as int;
            assert(c2 == (c + 1) % m);
            vstd::arithmetic::div_mod::lemma_add_mod_noop(c + 1, f, m);
            vstd::arithmetic::div_mod::lemma_mod_twice(c + 1, m);
            vstd::arithmetic::div_mod::lemma_add_mod_noop(c + f, 1, m);
            vstd::arithmetic::div_mod::lemma_add_mod_noop(1 + sp, 1, m);
            assert(c + 1 + f == (c + f) + 1);
            assert(1 + (sp + 1) == (1 + sp) + 1);
        }
    }
}

/// Exactly one `done` leads.  Start from a new barrier and run any sequence
/// of operations: at most one call of `done` reported the leader, and one
/// did exactly when the barrier now stands at zero workers without having
/// been cancelled.
pub proof fn lemma_one_leader(ops: Seq<BarrierOp>)
    requires
        ops.len() + 2 < u63_range(),
    ensures
        leaders(initial_word(), ops) <= 1,
        leaders(initial_word(), ops) == 1 <==> !run(initial_word(), ops).flag && run(
            initial_word(),
            ops,
        ).value == 0,
        run(initial_word(), ops).value <= 1 + ops.len(),
    decreases ops.len(),
{
    if ops.len() > 0 {
        lemma_one_leader(ops.drop_last());
        lemma_after(run(initial_word(), ops.drop_last()), ops.last());
    }
}

/// A cancellation stays.  Once the flag is set, whatever operations follow,
/// it is still set, and every `wait` that reads the state finds the work
/// cancelled.
pub proof fn lemma_cancel_stays(s: FlagWord, ops: Seq<BarrierOp>)
    requires
        s.flag,
    ensures
        run(s, ops).flag,
        wait_step(run(s, ops)).2 == WaitResult::Cancelled,
        forall|message: Option<bool>, res: Result<ShutdownBarrierWaitResult, ShutdownBarrierError>|
            is_wait_outcome(wait_step(run(s, ops)).2, message, res) ==> res is Ok
                && res->Ok_0.cancelled(),
    decreases ops.len(),
{
    if ops.len() > 0 {
        lemma_cancel_stays(s, ops.drop_last());
    }
}

/// A `cancel` that succeeds sets the flag: the waiters that read the state
/// from then on find the work cancelled.
pub proof fn lemma_cancel_sets(s: FlagWord)
    requires
        !is_shutdown(s),
    ensures
        cancel_step(s).0,
        cancel_step(s).1.flag,
        cancel_step(s).1.value == s.value,
        shutdown_outcome(cancel_step(s).2) is Ok,
{
}

/// At most one `done` leads, whatever happens.  Run any sequence of
/// operations on a new barrier, of any length, with or without a
/// cancellation: at most one call of `done` reported the leader.  If one
/// did, the barrier stands at zero workers, not cancelled, and every
/// operation after it leaves the barrier as it is and is rejected.
pub proof fn lemma_at_most_one_leader(ops: Seq<BarrierOp>)
    ensures
        leaders(initial_word(), ops) <= 1,
        leaders(initial_word(), ops) == 1 ==> run(initial_word(), ops) == (FlagWord {
            value: 0,
            flag: false,
        }),
        leaders(initial_word(), ops) == 1 ==> forall|op: BarrierOp|
            after(run(initial_word(), ops), op) == run(initial_word(), ops) && leads(
                run(initial_word(), ops),
                op,
            ) == 0,
    decreases ops.len(),
{
    if ops.len() > 0 {
        lemma_at_most_one_leader(ops.drop_last());
    }
}

/// The leader is the call that found one worker left and no cancellation.
/// A `done` reports the leader exactly when its transaction took the count
/// from one to zero with the flag clear; it then reports no cancellation,
/// and it is the call that sends `false` to the waiters.
pub proof fn lemma_leader_outcome(
    s: FlagWord,
    res: Result<ShutdownBarrierDoneResult, ShutdownBarrierError>,
)
    requires
        is_done_outcome(done_step(s).2, res),
    ensures
        res is Ok && res->Ok_0.leader() <==> done_step(s).2 == DoneResult::ShutdownLeader,
        done_step(s).2 == DoneResult::ShutdownLeader <==> !s.flag && s.value == 1,
        done_step(s).2 == DoneResult::ShutdownLeader ==> done_step(s).0 && done_step(s).1 == (
            FlagWord { value: 0, flag: false }) && !res->Ok_0.cancelled(),
{
}

} // verus!
