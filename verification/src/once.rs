//! A wait-free alternative to `std::sync::OnceLock`, with helper methods
//! that make it easier to correctly register state at startup.
//!
//! The word of a cell is a `FlagPtr`: its tag is the lifecycle of the cell,
//! its address says where the value is, null for none.  Every operation is
//! one transaction on that word.  What a transaction does to a given word is
//! a specification function of this module (`set_step`, `prepare_step`, and
//! so on); what holds of every sequence of transactions is proved at the end
//! of the module.
use vstd::prelude::*;
use crate::atomic_try_update;
use crate::bits::Align8;
use crate::bits::FlagPtr;
use crate::Atom;
use crate::AtomRecord;
use std::sync::OnceLock;

verus! {

/// `OnceLock` of std: a slot that can be filled once.  Nothing is known of
/// what is in it.
#[verifier::external_type_specification]
#[verifier::external_body]
#[verifier::reject_recursive_types(T)]
pub struct ExOnceLock<T>(OnceLock<T>);

/// `OnceLock::new` of std: an empty slot.
pub assume_specification<T>[ OnceLock::<T>::new ]() -> (slot: OnceLock<T>);

/// `OnceLock::get_or_init` of std: the value in the slot, which is what
/// `init` returns if the slot was empty.  `init` runs at most once.
pub assume_specification<T, F>[ OnceLock::<T>::get_or_init::<F> ](
    slot: &OnceLock<T>,
    init: F,
) -> (value: &T) where F: FnOnce() -> T
    requires
        call_requires(init, ()),
;

/// `OnceLock::wait` of std: the value in the slot, once there is one.  It
/// blocks the thread until then.
pub assume_specification<T>[ OnceLock::<T>::wait ](slot: &OnceLock<T>) -> (value: &T);

/// The stages in the life of a cell.
#[derive(Debug, Clone, Copy, PartialEq, Eq, Structural)]
pub enum Lifecycle {
    /// No value, no commitment.
    NotSet,
    /// A caller has promised to set; others must not race.
    Setting,
    /// Value published, or the cell sealed without one.
    IsSet,
    /// The cell has been dropped.
    Dead,
}

impl Lifecycle {
    /// The tag that stands for the stage in the word of a cell.
    pub open spec fn tag(self) -> nat {
        match self {
            Lifecycle::NotSet => 0,
            Lifecycle::Setting => 1,
            Lifecycle::IsSet => 2,
            Lifecycle::Dead => 3,
        }
    }

    /// The stage that a tag stands for.  The tags above three stand for
    /// none.
    pub open spec fn of_tag(tag: nat) -> Option<Lifecycle> {
        if tag == 0 {
            Some(Lifecycle::NotSet)
        } else if tag == 1 {
            Some(Lifecycle::Setting)
        } else if tag == 2 {
            Some(Lifecycle::IsSet)
        } else if tag == 3 {
            Some(Lifecycle::Dead)
        } else {
            None
        }
    }

    pub fn into_tag(self) -> (tag: usize)
        ensures
            tag == self.tag(),
            tag <= 3,
        opens_invariants none
        no_unwind
    {
        match self {
            Lifecycle::NotSet => 0,
            Lifecycle::Setting => 1,
            Lifecycle::IsSet => 2,
            Lifecycle::Dead => 3,
        }
    }

    pub fn try_from_tag(tag: usize) -> (stage: Option<Lifecycle>)
        ensures
            stage == Self::of_tag(tag as nat),
        opens_invariants none
        no_unwind
    {
        if tag == 0 {
            Some(Lifecycle::NotSet)
        } else if tag == 1 {
            Some(Lifecycle::Setting)
        } else if tag == 2 {
            Some(Lifecycle::IsSet)
        } else if tag == 3 {
            Some(Lifecycle::Dead)
        } else {
            None
        }
    }
}

/// What a transaction can find wrong.  `UseAfterFreeBug` stands for a word
/// that no live cell can hold: that of a dropped cell, or a tag that stands
/// for no stage.
#[derive(Debug, Clone, Copy, PartialEq, Eq, Structural)]
pub enum OnceLockFreeInternalError {
    AlreadySet,
    AttemptToReadWhenUnset,
    AttemptToSetConcurrently,
    UseAfterFreeBug,
    UnpreparedForSet,
}

#[derive(Debug, Clone, Copy, PartialEq, Eq, Structural)]
pub enum OnceLockFreeError {
    AlreadySet,
    AttemptToReadWhenUnset,
    AttemptToSetConcurrently,
    UnpreparedForSet,
}

impl OnceLockFreeError {
    /// The name of the error, as text.
    pub open spec fn text(&self) -> Seq<char> {
        match self {
            OnceLockFreeError::AlreadySet => "AlreadySet"@,
            OnceLockFreeError::AttemptToReadWhenUnset => "AttemptToReadWhenUnset"@,
            OnceLockFreeError::AttemptToSetConcurrently => "AttemptToSetConcurrently"@,
            OnceLockFreeError::UnpreparedForSet => "UnpreparedForSet"@,
        }
    }

    /// The name of the error.
    pub fn to_string(&self) -> (text: String)
        ensures
            text@ == self.text(),
    {
        match self {
            OnceLockFreeError::AlreadySet => "AlreadySet".to_owned(),
            OnceLockFreeError::AttemptToReadWhenUnset => "AttemptToReadWhenUnset".to_owned(),
            OnceLockFreeError::AttemptToSetConcurrently => "AttemptToSetConcurrently".to_owned(),
            OnceLockFreeError::UnpreparedForSet => "UnpreparedForSet".to_owned(),
        }
    }
}

/// The error that the callers see for an error of a transaction, where it
/// is none of a word that no live cell can hold.
pub open spec fn surfaced(err: OnceLockFreeInternalError) -> OnceLockFreeError {
    match err {
        OnceLockFreeInternalError::AlreadySet => OnceLockFreeError::AlreadySet,
        OnceLockFreeInternalError::AttemptToReadWhenUnset => OnceLockFreeError::AttemptToReadWhenUnset,
        OnceLockFreeInternalError::AttemptToSetConcurrently => OnceLockFreeError::AttemptToSetConcurrently,
        OnceLockFreeInternalError::UnpreparedForSet => OnceLockFreeError::UnpreparedForSet,
        OnceLockFreeInternalError::UseAfterFreeBug => arbitrary(),
    }
}

/// Maps the error of a transaction to the error that the callers see.  A
/// `UseAfterFreeBug` has none, and is not accepted.
pub fn panic_on_memory_bug(err: OnceLockFreeInternalError) -> (out: OnceLockFreeError)
    requires
        err != OnceLockFreeInternalError::UseAfterFreeBug,
    ensures
        out == surfaced(err),
{
    match err {
        OnceLockFreeInternalError::AlreadySet => OnceLockFreeError::AlreadySet,
        OnceLockFreeInternalError::AttemptToReadWhenUnset => {
            OnceLockFreeError::AttemptToReadWhenUnset
        },
        OnceLockFreeInternalError::AttemptToSetConcurrently => {
            OnceLockFreeError::AttemptToSetConcurrently
        },
        OnceLockFreeInternalError::UseAfterFreeBug => OnceLockFreeError::AlreadySet,
        OnceLockFreeInternalError::UnpreparedForSet => OnceLockFreeError::UnpreparedForSet,
    }
}

/// The error that the callers of an operation see for an error of its
/// transaction.  For the word of a dropped cell, which no caller can reach
/// through a reference to a live cell, the operation answers `on_dead`.
pub open spec fn reported(
    err: OnceLockFreeInternalError,
    on_dead: OnceLockFreeError,
) -> OnceLockFreeError {
    if err == OnceLockFreeInternalError::UseAfterFreeBug {
        on_dead
    } else {
        surfaced(err)
    }
}

/// Maps the error of a transaction to the error that the callers see.
pub fn report(err: OnceLockFreeInternalError, on_dead: OnceLockFreeError) -> (out:
    OnceLockFreeError)
    ensures
        out == reported(err, on_dead),
{
    match err {
        OnceLockFreeInternalError::UseAfterFreeBug => on_dead,
        _ => panic_on_memory_bug(err),
    }
}

/// The address that the word of a cell holds once a value is published:
/// that of the one slot of the cell.
pub const VALUE_SLOT: usize = 8;

/// What a transaction that reads hands back: the address of the value,
/// `None` where there is none, or what it found wrong.
pub type ReadResult = Result<Option<usize>, OnceLockFreeInternalError>;

/// What a transaction that sets hands back.
pub type SetResult = Result<(), OnceLockFreeInternalError>;

/// What the record of a cell carries: the tag of its stage, and the address
/// of the value, null for none.
pub struct CellWord {
    pub tag: nat,
    pub address: nat,
}

impl CellWord {
    /// The stage of the cell, if the tag stands for one.
    pub open spec fn stage(self) -> Option<Lifecycle> {
        Lifecycle::of_tag(self.tag)
    }

    /// The word at the stage `stage`, with the address `address`.
    pub open spec fn at(stage: Lifecycle, address: nat) -> CellWord {
        CellWord { tag: stage.tag(), address }
    }

    /// The word of a new cell: not set, no value.
    pub open spec fn fresh() -> CellWord {
        Self::at(Lifecycle::NotSet, 0)
    }

    /// What the word says of the value: where it is, if there is one.
    pub open spec fn value_address(self) -> Option<usize> {
        if self.address == 0 {
            None
        } else {
            Some(self.address as usize)
        }
    }

    /// The transaction of `set`, which installs a value at `address`.  A
    /// cell that is promised to another setter is as good as set to this
    /// one: it is told `AlreadySet`, and the promise stands.
    pub open spec fn set_step(self, address: usize) -> (bool, CellWord, SetResult) {
        match self.stage() {
            Some(Lifecycle::NotSet) => (true, Self::at(Lifecycle::IsSet, address as nat), Ok(())),
            Some(Lifecycle::Setting) => (false, self, Err(OnceLockFreeInternalError::AlreadySet)),
            Some(Lifecycle::IsSet) => (false, self, Err(OnceLockFreeInternalError::AlreadySet)),
            _ => (false, self, Err(OnceLockFreeInternalError::UseAfterFreeBug)),
        }
    }

    /// The transaction of `set_prepared`, which installs a value at
    /// `address`.
    pub open spec fn set_prepared_step(self, address: usize) -> (bool, CellWord, SetResult) {
        match self.stage() {
            Some(Lifecycle::NotSet) => (
                false,
                self,
                Err(OnceLockFreeInternalError::UnpreparedForSet),
            ),
            Some(Lifecycle::Setting) => (true, Self::at(Lifecycle::IsSet, address as nat), Ok(())),
            Some(Lifecycle::IsSet) => (false, self, Err(OnceLockFreeInternalError::AlreadySet)),
            _ => (false, self, Err(OnceLockFreeInternalError::UseAfterFreeBug)),
        }
    }

    /// The transaction of `get_or_prepare_to_set`.
    pub open spec fn prepare_step(self) -> (bool, CellWord, ReadResult) {
        match self.stage() {
            Some(Lifecycle::NotSet) => (true, Self::at(Lifecycle::Setting, self.address), Ok(None)),
            Some(Lifecycle::Setting) => (
                false,
                self,
                Err(OnceLockFreeInternalError::AttemptToSetConcurrently),
            ),
            Some(Lifecycle::IsSet) => (false, self, Ok(self.value_address())),
            _ => (false, self, Err(OnceLockFreeInternalError::UseAfterFreeBug)),
        }
    }

    /// The transaction of `get_or_seal`.
    pub open spec fn seal_step(self) -> (bool, CellWord, ReadResult) {
        match self.stage() {
            Some(Lifecycle::NotSet) => (true, Self::at(Lifecycle::IsSet, 0), Ok(None)),
            Some(Lifecycle::Setting) => (
                false,
                self,
                Err(OnceLockFreeInternalError::AttemptToSetConcurrently),
            ),
            Some(Lifecycle::IsSet) => (false, self, Ok(self.value_address())),
            _ => (false, self, Err(OnceLockFreeInternalError::UseAfterFreeBug)),
        }
    }

    /// The transaction of `get_poll`.  It never commits and never fails.
    pub open spec fn poll_step(self) -> (bool, CellWord, Option<usize>) {
        match self.stage() {
            Some(Lifecycle::IsSet) => (false, self, self.value_address()),
            _ => (false, self, None),
        }
    }

    /// The transaction of a drop: every live stage becomes `Dead`, and the
    /// address of the value that is to be freed is handed back.  A cell that
    /// is dead already is not touched.
    pub open spec fn drop_step(self) -> (bool, CellWord, ReadResult) {
        match self.stage() {
            Some(Lifecycle::NotSet) => (true, Self::at(Lifecycle::Dead, self.address), Ok(None)),
            Some(Lifecycle::Setting) => (true, Self::at(Lifecycle::Dead, self.address), Ok(None)),
            Some(Lifecycle::IsSet) => (
                true,
                Self::at(Lifecycle::Dead, self.address),
                Ok(self.value_address()),
            ),
            Some(Lifecycle::Dead) => (false, self, Err(OnceLockFreeInternalError::UseAfterFreeBug)),
            None => (true, self, Ok(None)),
        }
    }
}

/// The record of a cell.
pub struct OnceLockFreeState<T> {
    flag_ptr: FlagPtr<Align8<T>>,
}

impl<T> View for OnceLockFreeState<T> {
    type V = CellWord;

    closed spec fn view(&self) -> CellWord {
        CellWord { tag: self.flag_ptr.flag(), address: self.flag_ptr.ptr() }
    }
}

impl<T> OnceLockFreeState<T> {
    /// The bit image of the record.
    pub closed spec fn image(&self) -> u64 {
        self.flag_ptr.bits() as u64
    }

    /// The record that a bit image stands for.
    pub closed spec fn of_image(w: u64) -> OnceLockFreeState<T> {
        OnceLockFreeState { flag_ptr: FlagPtr::from_bits(w as usize) }
    }

    /// What the record that an image stands for carries: the image modulo
    /// eight as the tag, and the rest as the address.  The record that the
    /// all-zero word stands for is that of a new cell: not set, no value.
    pub proof fn lemma_image(w: u64)
        requires
            w <= usize::MAX,
        ensures
            Self::of_image(w)@ == (CellWord { tag: (w % 8) as nat, address: (w - w % 8) as nat }),
            Self::of_image(0)@ == CellWord::fresh(),
    {
        FlagPtr::<Align8<T>>::lemma_from_bits(w as usize);
        FlagPtr::<Align8<T>>::lemma_from_bits(0);
    }

    fn to_image(&self) -> (w: u64)
        ensures
            w == self.image(),
        opens_invariants none
        no_unwind
    {
        self.flag_ptr.to_bits() as u64
    }

    fn from_image(w: u64) -> (state: Self)
        ensures
            state == Self::of_image(w),
        opens_invariants none
        no_unwind
    {
        OnceLockFreeState { flag_ptr: FlagPtr::of_bits(#[verifier::truncate] (w as usize)) }
    }

    fn stage_of(&self) -> (stage: Option<Lifecycle>)
        ensures
            stage == self@.stage(),
        opens_invariants none
        no_unwind
    {
        Lifecycle::try_from_tag(self.flag_ptr.get_flag())
    }

    fn value_address_of(&self) -> (address: Option<usize>)
        ensures
            address == self@.value_address(),
        opens_invariants none
        no_unwind
    {
        let ptr = self.flag_ptr.get_ptr();
        if ptr == 0 {
            None
        } else {
            Some(ptr)
        }
    }

    fn move_to(&mut self, stage: Lifecycle)
        ensures
            final(self)@ == CellWord::at(stage, old(self)@.address),
        opens_invariants none
        no_unwind
    {
        self.flag_ptr.set_flag(stage.into_tag());
    }

    fn publish(&mut self, address: usize)
        requires
            address % 8 == 0,
        ensures
            final(self)@ == CellWord::at(Lifecycle::IsSet, address as nat),
    {
        self.flag_ptr.set_flag(Lifecycle::IsSet.into_tag());
        self.flag_ptr.set_ptr(address);
    }

    /// The transaction of `set`, on a given record.
    pub fn set_on(&mut self, address: usize) -> (out: (bool, SetResult))
        requires
            address % 8 == 0,
        ensures
            (out.0, final(self)@, out.1) == old(self)@.set_step(address),
    {
        match self.stage_of() {
            Some(Lifecycle::NotSet) => {
                self.publish(address);
                (true, Ok(()))
            },
            Some(Lifecycle::Setting) => (false, Err(OnceLockFreeInternalError::AlreadySet)),
            Some(Lifecycle::IsSet) => (false, Err(OnceLockFreeInternalError::AlreadySet)),
            _ => (false, Err(OnceLockFreeInternalError::UseAfterFreeBug)),
        }
    }

    /// The transaction of `set_prepared`, on a given record.
    pub fn set_prepared_on(&mut self, address: usize) -> (out: (bool, SetResult))
        requires
            address % 8 == 0,
        ensures
            (out.0, final(self)@, out.1) == old(self)@.set_prepared_step(address),
    {
        match self.stage_of() {
            Some(Lifecycle::NotSet) => (false, Err(OnceLockFreeInternalError::UnpreparedForSet)),
            Some(Lifecycle::Setting) => {
                self.publish(address);
                (true, Ok(()))
            },
            Some(Lifecycle::IsSet) => (false, Err(OnceLockFreeInternalError::AlreadySet)),
            _ => (false, Err(OnceLockFreeInternalError::UseAfterFreeBug)),
        }
    }

    /// The transaction of `get_or_prepare_to_set`, on a given record.
    pub fn prepare_on(&mut self) -> (out: (bool, ReadResult))
        ensures
            (out.0, final(self)@, out.1) == old(self)@.prepare_step(),
    {
        match self.stage_of() {
            Some(Lifecycle::NotSet) => {
                self.move_to(Lifecycle::Setting);
                (true, Ok(None))
            },
            Some(Lifecycle::Setting) => (
                false,
                Err(OnceLockFreeInternalError::AttemptToSetConcurrently),
            ),
            Some(Lifecycle::IsSet) => (false, Ok(self.value_address_of())),
            _ => (false, Err(OnceLockFreeInternalError::UseAfterFreeBug)),
        }
    }

    /// The transaction of `get_or_seal`, on a given record.
    pub fn seal_on(&mut self) -> (out: (bool, ReadResult))
        ensures
            (out.0, final(self)@, out.1) == old(self)@.seal_step(),
    {
        match self.stage_of() {
            Some(Lifecycle::NotSet) => {
                self.publish(0);
                (true, Ok(None))
            },
            Some(Lifecycle::Setting) => (
                false,
                Err(OnceLockFreeInternalError::AttemptToSetConcurrently),
            ),
            Some(Lifecycle::IsSet) => (false, Ok(self.value_address_of())),
            _ => (false, Err(OnceLockFreeInternalError::UseAfterFreeBug)),
        }
    }

    /// The transaction of `get_poll`, on a given record.
    pub fn poll_on(&self) -> (out: (bool, Option<usize>))
        ensures
            (out.0, self@, out.1) == self@.poll_step(),
    {
        match self.stage_of() {
            Some(Lifecycle::IsSet) => (false, self.value_address_of()),
            _ => (false, None),
        }
    }

    /// The transaction of a drop, on a given record.
    pub fn drop_on(&mut self) -> (out: (bool, ReadResult))
        ensures
            (out.0, final(self)@, out.1) == old(self)@.drop_step(),
        opens_invariants none
        no_unwind
    {
        match self.stage_of() {
            Some(Lifecycle::NotSet) => {
                self.move_to(Lifecycle::Dead);
                (true, Ok(None))
            },
            Some(Lifecycle::Setting) => {
                self.move_to(Lifecycle::Dead);
                (true, Ok(None))
            },
            Some(Lifecycle::IsSet) => {
                let address = self.value_address_of();
                self.move_to(Lifecycle::Dead);
                (true, Ok(address))
            },
            Some(Lifecycle::Dead) => {
                // don't want to double free!
                (false, Err(OnceLockFreeInternalError::UseAfterFreeBug))
            },
            None => (true, Ok(None)),
        }
    }
}

impl<T> Default for OnceLockFreeState<T> {
    /// The record of a new cell: not set, no value.
    fn default() -> (state: Self)
        ensures
            state@ == CellWord::fresh(),
    {
        OnceLockFreeState { flag_ptr: FlagPtr::default() }
    }
}

impl<T> AtomRecord<u64> for OnceLockFreeState<T> {
    open spec fn word(&self) -> u64 {
        self.image()
    }

    open spec fn of_word(w: u64) -> Self {
        OnceLockFreeState::of_image(w)
    }

    fn pack(&self) -> (w: u64) {
        self.to_image()
    }

    fn unpack(w: u64) -> (t: Self) {
        OnceLockFreeState::from_image(w)
    }

    proof fn lemma_read_back(self) {
        self.flag_ptr.lemma_bits();
    }
}

/// True when a setter returns `res` for what its transaction handed back:
/// a reference to the value it installed, or the error.
pub open spec fn is_set_outcome<T>(
    found: SetResult,
    on_dead: OnceLockFreeError,
    res: Result<&T, OnceLockFreeError>,
) -> bool {
    match found {
        Ok(()) => res is Ok,
        Err(err) => res is Err && res->Err_0 == reported(err, on_dead),
    }
}

/// True when a getter returns `res` for what its transaction handed back:
/// a reference to the value if the word has the address of one, `None` if it
/// has none, or the error.
pub open spec fn is_get_outcome<T>(
    found: ReadResult,
    on_dead: OnceLockFreeError,
    res: Result<Option<&T>, OnceLockFreeError>,
) -> bool {
    match found {
        Ok(address) => res is Ok && (res->Ok_0 is Some <==> address is Some),
        Err(err) => res is Err && res->Err_0 == reported(err, on_dead),
    }
}

/// True when `get` returns `res` for what the transaction of `get_or_seal`
/// handed back: a reference to the value if the word has the address of
/// one, and `AttemptToReadWhenUnset` if it has none.
pub open spec fn is_value_outcome<T>(found: ReadResult, res: Result<&T, OnceLockFreeError>) -> bool {
    match found {
        Ok(Some(_)) => res is Ok,
        Ok(None) => res is Err && res->Err_0 == OnceLockFreeError::AttemptToReadWhenUnset,
        Err(err) => res is Err && res->Err_0 == reported(
            err,
            OnceLockFreeError::AttemptToReadWhenUnset,
        ),
    }
}

/// A wait-free alternative to `std::sync::OnceLock`.
///
/// This includes a few special purpose helper methods for various use
/// cases.  The main advantage of these helpers is that they map unexpected
/// states into `OnceLockFreeError` values.
///
/// The helper methods are designed to be used in pairs:
///
/// If you need to wait until a value has been registered, use `get_poll` to
/// read it, and `set` to set it.
///
/// If you need to memoize the result, use `get_or_prepare_to_set()` to check
/// to see if the value has been set, and then use `set_prepared()` to
/// install the value.  Do this in a way that guarantees that callers will
/// not race to set the value.  After all the sets have completed, you can
/// use `get()` or `get_or_prepare_to_set()` to read values that must be
/// present.
///
/// If you want to guarantee that no setters succeed after the first `get()`,
/// and don't guarantee that all values are set by the time initialization
/// completes, use `get_or_seal()`.
///
/// The stage of a cell only ever moves forward, so the transaction of an
/// operation settles within a few attempts whatever the other threads do.
/// The value itself is in a slot beside the word.  The caller that publishes
/// a value fills the slot as its next step; a reader that finds the address
/// in the word before that waits for the slot to be filled.
#[verifier::reject_recursive_types(T)]
pub struct OnceLockFree<T> {
    inner: Atom<OnceLockFreeState<T>, u64>,
    /// The one slot of the cell.  The caller whose transaction publishes
    /// `VALUE_SLOT` fills it, and nobody else.
    slot: OnceLock<Align8<T>>,
}

impl<'a, T> OnceLockFree<T> {
    /// Creates a new empty cell.
    pub fn new() -> Self {
        OnceLockFree { inner: Atom::default(), slot: OnceLock::new() }
    }

    /// Puts the value of the caller that published it into the slot.
    fn install(&'a self, val: T) -> &'a T {
        let installed = self.slot.get_or_init(
            move || -> (boxed: Align8<T>)
                ensures
                    boxed.inner == val
                { Align8::from(val) },
        );
        &installed.inner
    }

    /// The value in the slot, for a reader that found its address in the
    /// word.  The caller that published the address fills the slot right
    /// after its transaction; a reader that comes in between waits for it.
    fn read(&'a self, address: Option<usize>) -> (value: Option<&'a T>)
        ensures
            value is Some <==> address is Some,
    {
        match address {
            Some(_) => {
                let installed = self.slot.wait();
                Some(&installed.inner)
            },
            None => None,
        }
    }

    /// Reads the value, or else promises to set it.
    ///
    /// On a cell that is not set this returns `None`, and from then on the
    /// cell waits for the `set_prepared` of this caller: every `set` is told
    /// `AlreadySet`, every other reader and preparer gets
    /// `AttemptToSetConcurrently`.  On a cell that is set it returns the
    /// value, `None` for a sealed cell.
    ///
    /// The result is that of `prepare_step` on a word that the cell held.
    pub fn get_or_prepare_to_set(&'a self) -> (res: Result<Option<&'a T>, OnceLockFreeError>)
        ensures
            exists|s: CellWord|
                is_get_outcome(s.prepare_step().2, OnceLockFreeError::AttemptToReadWhenUnset, res),
    {
        let found = atomic_try_update(
            &self.inner,
            |s: &mut OnceLockFreeState<T>| -> (out: (bool, ReadResult))
                ensures
                    (out.0, final(s)@, out.1) == old(s)@.prepare_step()
                { s.prepare_on() },
        );
        match found {
            Ok(address) => Ok(self.read(address)),
            Err(err) => Err(report(err, OnceLockFreeError::AttemptToReadWhenUnset)),
        }
    }

    /// Gets the reference to the underlying value.
    ///
    /// Unlike `OnceCell` and `OnceLock`, which return an `Option`, this
    /// returns an error if the value has not yet been set, and seals the
    /// cell in that case.
    pub fn get(&'a self) -> (res: Result<&'a T, OnceLockFreeError>)
        ensures
            exists|s: CellWord| is_value_outcome(s.seal_step().2, res),
    {
        match self.get_or_seal() {
            Ok(Some(t)) => Ok(t),
            Ok(None) => Err(
                panic_on_memory_bug(OnceLockFreeInternalError::AttemptToReadWhenUnset),
            ),
            Err(err) => Err(err),
        }
    }

    /// Gets the reference to the underlying value, or `None` if the value
    /// has not been set yet.  It never fails and changes nothing.
    ///
    /// The result is that of `poll_step` on a word that the cell held.
    pub fn get_poll(&'a self) -> (res: Option<&'a T>)
        ensures
            exists|s: CellWord| res is Some <==> s.poll_step().2 is Some,
    {
        let address = atomic_try_update(
            &self.inner,
            |s: &mut OnceLockFreeState<T>| -> (out: (bool, Option<usize>))
                ensures
                    (out.0, final(s)@, out.1) == old(s)@.poll_step()
                { s.poll_on() },
        );
        self.read(address)
    }

    /// Gets the reference to the underlying value or "seals" self so that
    /// it can never be set to a value moving forward.
    ///
    /// Returns an error if another caller has prepared the cell and not set
    /// it yet.
    ///
    /// The result is that of `seal_step` on a word that the cell held.
    pub fn get_or_seal(&'a self) -> (res: Result<Option<&'a T>, OnceLockFreeError>)
        ensures
            exists|s: CellWord|
                is_get_outcome(s.seal_step().2, OnceLockFreeError::AttemptToReadWhenUnset, res),
    {
        let found = atomic_try_update(
            &self.inner,
            |s: &mut OnceLockFreeState<T>| -> (out: (bool, ReadResult))
                ensures
                    (out.0, final(s)@, out.1) == old(s)@.seal_step()
                { s.seal_on() },
        );
        match found {
            Ok(address) => Ok(self.read(address)),
            Err(err) => Err(report(err, OnceLockFreeError::AttemptToReadWhenUnset)),
        }
    }

    /// Sets the value after a call to `get_or_prepare_to_set` returned
    /// `None`.  This is done in two phases so that racing sets are more
    /// likely to be noticed, and to help callers improve error messages when
    /// that happens.
    ///
    /// Returns an error if already set, or if the cell has not been
    /// prepared.
    ///
    /// The result is that of `set_prepared_step` on a word that the cell
    /// held.
    pub fn set_prepared(&'a self, val: T) -> (res: Result<&'a T, OnceLockFreeError>)
        ensures
            exists|s: CellWord|
                is_set_outcome(
                    s.set_prepared_step(VALUE_SLOT).2,
                    OnceLockFreeError::AlreadySet,
                    res,
                ),
    {
        let found = atomic_try_update(
            &self.inner,
            |s: &mut OnceLockFreeState<T>| -> (out: (bool, SetResult))
                ensures
                    (out.0, final(s)@, out.1) == old(s)@.set_prepared_step(VALUE_SLOT)
                { s.set_prepared_on(VALUE_SLOT) },
        );
        match found {
            Ok(()) => Ok(self.install(val)),
            Err(err) => Err(report(err, OnceLockFreeError::AlreadySet)),
        }
    }

    /// Set this to the provided value.  Wait free.
    ///
    /// Returns `AlreadySet` if the cell has been prepared, or set already,
    /// and a reference to the stored value on success.
    ///
    /// The result is that of `set_step` on a word that the cell held.
    pub fn set(&'a self, val: T) -> (res: Result<&'a T, OnceLockFreeError>)
        ensures
            exists|s: CellWord|
                is_set_outcome(s.set_step(VALUE_SLOT).2, OnceLockFreeError::AlreadySet, res),
    {
        let found = atomic_try_update(
            &self.inner,
            |s: &mut OnceLockFreeState<T>| -> (out: (bool, SetResult))
                ensures
                    (out.0, final(s)@, out.1) == old(s)@.set_step(VALUE_SLOT)
                { s.set_on(VALUE_SLOT) },
        );
        match found {
            Ok(()) => Ok(self.install(val)),
            Err(err) => Err(report(err, OnceLockFreeError::AlreadySet)),
        }
    }
}

impl<T> Default for OnceLockFree<T> {
    fn default() -> Self {
        OnceLockFree::new()
    }
}

impl<T> Drop for OnceLockFree<T> {
    /// Marks the cell dead.  Nobody else can reach a cell that is being
    /// dropped, so the transaction runs once, on the word as it is; the slot
    /// frees the value.
    fn drop(&mut self)
        opens_invariants none
        no_unwind
    {
        let mut state = OnceLockFreeState::<T>::from_image(self.inner.load_owned());
        let (commit, _freed) = state.drop_on();
        if commit {
            self.inner.store_owned(state.to_image());
        }
    }
}

/// An operation on a cell.  The setters install a value at an address.
#[derive(Debug, Clone, Copy, PartialEq, Eq, Structural)]
pub enum OnceOp {
    Install(usize),
    InstallPrepared(usize),
    Prepare,
    Seal,
    Poll,
}

impl CellWord {
    /// Whether the transaction of `op` commits on this record, and the
    /// record it would leave.
    pub open spec fn attempt(self, op: OnceOp) -> (bool, CellWord) {
        match op {
            OnceOp::Install(address) => (self.set_step(address).0, self.set_step(address).1),
            OnceOp::InstallPrepared(address) => (
                self.set_prepared_step(address).0,
                self.set_prepared_step(address).1,
            ),
            OnceOp::Prepare => (self.prepare_step().0, self.prepare_step().1),
            OnceOp::Seal => (self.seal_step().0, self.seal_step().1),
            OnceOp::Poll => (self.poll_step().0, self.poll_step().1),
        }
    }

    /// The record that the transaction of `op` leaves.
    pub open spec fn after(self, op: OnceOp) -> CellWord {
        if self.attempt(op).0 {
            self.attempt(op).1
        } else {
            self
        }
    }

    /// One if `op` is a setter whose transaction succeeds on this record.
    pub open spec fn installs(self, op: OnceOp) -> nat {
        match op {
            OnceOp::Install(address) => if self.set_step(address).2 is Ok {
                1
            } else {
                0
            },
            OnceOp::InstallPrepared(address) => if self.set_prepared_step(address).2 is Ok {
                1
            } else {
                0
            },
            _ => 0,
        }
    }

    /// The record after the transactions of `ops`, one after the other.
    pub open spec fn run(self, ops: Seq<OnceOp>) -> CellWord
        decreases ops.len(),
    {
        if ops.len() == 0 {
            self
        } else {
            self.run(ops.drop_last()).after(ops.last())
        }
    }

    /// How many setters among `ops` succeed.
    pub open spec fn installed(self, ops: Seq<OnceOp>) -> nat
        decreases ops.len(),
    {
        if ops.len() == 0 {
            0
        } else {
            self.installed(ops.drop_last()) + self.run(ops.drop_last()).installs(ops.last())
        }
    }
}

/// True when every setter among `ops` installs at an address that a word
/// can hold beside its tag, and that is not null.
pub open spec fn installs_values(ops: Seq<OnceOp>) -> bool {
    forall|i: int|
        0 <= i < ops.len() ==> match #[trigger] ops[i] {
            OnceOp::Install(address) => address != 0 && address % 8 == 0,
            OnceOp::InstallPrepared(address) => address != 0 && address % 8 == 0,
            _ => true,
        }
}

/// `set`, then `set`: the first one succeeds on a new cell, the second one
/// is told `AlreadySet`, and so is every `set_prepared`.
pub proof fn lemma_set_then_set(first: usize, second: usize)
    requires
        first % 8 == 0,
    ensures
        CellWord::fresh().set_step(first).0,
        CellWord::fresh().set_step(first).2 is Ok,
        CellWord::fresh().set_step(first).1.set_step(second) == (
            false,
            CellWord::fresh().set_step(first).1,
            Err::<(), _>(OnceLockFreeInternalError::AlreadySet),
        ),
        CellWord::fresh().set_step(first).1.set_prepared_step(second).2 == Err::<
            (),
            _,
        >(OnceLockFreeInternalError::AlreadySet),
{
}

/// `get_or_prepare_to_set` returns `None` once.  On a new cell it promises
/// the set and returns `None`.  From then on every `set` is rejected with
/// `AlreadySet` and leaves the promise as it is, so that `set_prepared` can
/// still keep it.  Until it does, a second `get_or_prepare_to_set` is
/// rejected with `AttemptToSetConcurrently`; after it, the readers get the
/// value.
pub proof fn lemma_prepare_then_set(address: usize, other: usize)
    requires
        address % 8 == 0,
        address != 0,
    ensures
        ({
            let prepared = CellWord::fresh().prepare_step();
            let kept = prepared.1.set_prepared_step(address);
            &&& prepared.0
            &&& prepared.2 == Ok::<Option<usize>, OnceLockFreeInternalError>(None)
            &&& prepared.1.prepare_step().2 == Err::<Option<usize>, _>(
                OnceLockFreeInternalError::AttemptToSetConcurrently,
            )
            &&& prepared.1.set_step(other) == (
                false,
                prepared.1,
                Err::<(), _>(OnceLockFreeInternalError::AlreadySet),
            )
            &&& reported(prepared.1.set_step(other).2->Err_0, OnceLockFreeError::AlreadySet)
                == OnceLockFreeError::AlreadySet
            &&& prepared.1.set_step(other).1.set_prepared_step(address) == kept
            &&& kept.0
            &&& kept.2 is Ok
            &&& kept.1.set_step(other).2 == Err::<(), _>(OnceLockFreeInternalError::AlreadySet)
            &&& kept.1.prepare_step().2 == Ok::<Option<usize>, OnceLockFreeInternalError>(
                Some(address),
            )
        }),
{
}

/// A `set_prepared` that nobody prepared is told so, and changes nothing.
pub proof fn lemma_unprepared(address: usize)
    ensures
        CellWord::fresh().set_prepared_step(address) == (
            false,
            CellWord::fresh(),
            Err::<(), _>(OnceLockFreeInternalError::UnpreparedForSet),
        ),
{
}

/// `get_or_seal` on a new cell returns `None`, and so does every
/// `get_or_seal` after it; a `set` that follows is told `AlreadySet`, and
/// `get` is told `AttemptToReadWhenUnset`.
pub proof fn lemma_seal_then_set(address: usize)
    ensures
        ({
            let sealed = CellWord::fresh().seal_step();
            &&& sealed.0
            &&& sealed.2 == Ok::<Option<usize>, OnceLockFreeInternalError>(None)
            &&& sealed.1.seal_step() == (
                false,
                sealed.1,
                Ok::<Option<usize>, OnceLockFreeInternalError>(None),
            )
            &&& sealed.1.set_step(address).2 == Err::<(), _>(OnceLockFreeInternalError::AlreadySet)
            &&& !sealed.1.set_step(address).0
        }),
{
}

/// What is set stays set.  No operation changes the word of a cell that is
/// set or sealed: the value that was published is the one that every later
/// reader finds.
pub proof fn lemma_set_is_final(state: CellWord, ops: Seq<OnceOp>)
    requires
        state.stage() == Some(Lifecycle::IsSet),
    ensures
        state.run(ops) == state,
        state.installed(ops) == 0,
    decreases ops.len(),
{
    if ops.len() > 0 {
        lemma_set_is_final(state, ops.drop_last());
    }
}

/// At most one value is ever installed.  Whatever operations run on a new
/// cell, in whatever order, at most one setter among them succeeds; one did
/// exactly when the cell now is set and holds the address of a value.
pub proof fn lemma_one_value(ops: Seq<OnceOp>)
    requires
        installs_values(ops),
    ensures
        ({
            let end = CellWord::fresh().run(ops);
            &&& CellWord::fresh().installed(ops) <= 1
            &&& CellWord::fresh().installed(ops) == 1 <==> end.stage() == Some(
                Lifecycle::IsSet,
            ) && end.address != 0
            &&& end.stage() is Some
            &&& end.stage() != Some(Lifecycle::Dead)
            &&& end.stage() != Some(Lifecycle::IsSet) ==> end.address == 0
        }),
    decreases ops.len(),
{
    if ops.len() > 0 {
        assert(installs_values(ops.drop_last())) by {
            assert forall|i: int| 0 <= i < ops.drop_last().len() implies match #[trigger] ops.drop_last()[i] {
                OnceOp::Install(address) => address != 0 && address % 8 == 0,
                OnceOp::InstallPrepared(address) => address != 0 && address % 8 == 0,
                _ => true,
            } by {
                assert(ops.drop_last()[i] == ops[i]);
            }
        }
        lemma_one_value(ops.drop_last());
        let before = CellWord::fresh().run(ops.drop_last());
        let op = ops[ops.len() - 1];
        assert(op == ops.last());
    }
}

/// How far a stage is along the life of a cell.
pub open spec fn rank(stage: Lifecycle) -> nat {
    stage.tag()
}

/// A cell only moves forward: from `NotSet` to `Setting` or `IsSet`, from
/// `Setting` to `IsSet`.  No operation takes a cell back, and none but the
/// drop makes it `Dead`.
pub proof fn lemma_stage_moves_forward(state: CellWord, op: OnceOp)
    requires
        state.stage() is Some,
        match op {
            OnceOp::Install(address) => address % 8 == 0,
            OnceOp::InstallPrepared(address) => address % 8 == 0,
            _ => true,
        },
    ensures
        state.after(op).stage() is Some,
        rank(state.stage()->0) <= rank(state.after(op).stage()->0),
        state.after(op).stage() == Some(Lifecycle::Dead) ==> state.stage() == Some(Lifecycle::Dead),
        state.after(op).stage() == Some(Lifecycle::Setting) ==> op == OnceOp::Prepare
            || state.stage() == Some(Lifecycle::Setting),
{
}

/// The drop ends the life of a cell.  On a live cell its transaction
/// commits, leaves the cell `Dead` and hands back the address of the value
/// that was published, if one was.  On a dead cell every transaction finds
/// a `UseAfterFreeBug` and changes nothing.
pub proof fn lemma_drop_is_last(state: CellWord, address: usize)
    requires
        state.stage() is Some,
        state.stage() != Some(Lifecycle::Dead),
    ensures
        ({
            let dropped = state.drop_step();
            let bug = OnceLockFreeInternalError::UseAfterFreeBug;
            &&& dropped.0
            &&& dropped.1.stage() == Some(Lifecycle::Dead)
            &&& dropped.2 == Ok::<Option<usize>, OnceLockFreeInternalError>(
                if state.stage() == Some(Lifecycle::IsSet) {
                    state.value_address()
                } else {
                    None
                },
            )
            &&& dropped.1.drop_step() == (false, dropped.1, Err::<Option<usize>, _>(bug))
            &&& dropped.1.set_step(address) == (false, dropped.1, Err::<(), _>(bug))
            &&& dropped.1.set_prepared_step(address) == (false, dropped.1, Err::<(), _>(bug))
            &&& dropped.1.prepare_step() == (false, dropped.1, Err::<Option<usize>, _>(bug))
            &&& dropped.1.seal_step() == (false, dropped.1, Err::<Option<usize>, _>(bug))
            &&& dropped.1.poll_step() == (false, dropped.1, None::<usize>)
        }),
{
}

/// `get` on a cell without a value.  On a new cell and on a sealed one the
/// transaction of `get` finds no value, and `get` is told
/// `AttemptToReadWhenUnset`; the new cell is sealed by it.
pub proof fn lemma_get_without_value<T>(res: Result<&T, OnceLockFreeError>)
    requires
        is_value_outcome(CellWord::fresh().seal_step().2, res) || is_value_outcome(
            CellWord::fresh().seal_step().1.seal_step().2,
            res,
        ),
    ensures
        res is Err,
        res->Err_0 == OnceLockFreeError::AttemptToReadWhenUnset,
        CellWord::fresh().seal_step().1 == CellWord::at(Lifecycle::IsSet, 0),
{
}

} // verus!
