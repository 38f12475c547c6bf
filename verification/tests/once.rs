use atomic_try_update::once::{OnceLockFree, OnceLockFreeError};

#[test]
fn smoke_test() {
    let a = OnceLockFree::default();
    a.set(1u64).unwrap();
    assert_eq!(a.get().unwrap(), &1u64);
    assert_eq!(a.set(1u64), Err(OnceLockFreeError::AlreadySet));
    assert_eq!(a.get().unwrap(), &1u64);

    let a = OnceLockFree::default();
    assert_eq!(
        a.set_prepared(1u64),
        Err(OnceLockFreeError::UnpreparedForSet)
    );

    let a = OnceLockFree::default();
    let x = a.get_or_prepare_to_set().unwrap();
    assert_eq!(x, None);
    a.set_prepared(0u8).unwrap();
    assert_eq!(a.get_or_prepare_to_set().unwrap(), Some(&0u8));

    let a = OnceLockFree::default();
    let x = a.get_poll();
    assert_eq!(x, None);
    a.set(1234u16).unwrap();
    let x = a.get_poll();
    assert_eq!(x, Some(&1234_u16));

    let a = OnceLockFree::default();
    let x = a.get_or_seal().unwrap();
    assert_eq!(x, None);
    let x = a.get_or_seal().unwrap();
    assert_eq!(x, None);
    assert_eq!(a.set(1u8), Err(OnceLockFreeError::AlreadySet));

    let a = OnceLockFree::default();
    a.set(1u8).unwrap();
    let x = a.get_or_seal().unwrap();
    assert_eq!(x, Some(&1u8));
    let x = a.get_or_seal().unwrap();
    assert_eq!(x, Some(&1u8));
    assert_eq!(a.set(1u8), Err(OnceLockFreeError::AlreadySet));
}

#[test]
fn once_set_then_set() {
    let a = OnceLockFree::new();
    assert_eq!(a.set(1u64), Ok(&1u64));
    assert_eq!(a.set(2u64), Err(OnceLockFreeError::AlreadySet));
    assert_eq!(a.set_prepared(3u64), Err(OnceLockFreeError::AlreadySet));
    assert_eq!(a.get(), Ok(&1u64));
    assert_eq!(a.get_poll(), Some(&1u64));
    assert_eq!(a.get_or_seal(), Ok(Some(&1u64)));
    assert_eq!(a.get_or_prepare_to_set(), Ok(Some(&1u64)));
}

#[test]
fn once_prepare_then_set_prepared() {
    let a = OnceLockFree::new();
    assert_eq!(a.get_or_prepare_to_set(), Ok(None));
    // The promise keeps everybody else out until it is kept.
    assert_eq!(
        a.get_or_prepare_to_set(),
        Err(OnceLockFreeError::AttemptToSetConcurrently)
    );
    // A plain set is told that the cell is taken, and the promise stands.
    assert_eq!(a.set(5u32), Err(OnceLockFreeError::AlreadySet));
    assert_eq!(a.set(5u32), Err(OnceLockFreeError::AlreadySet));
    assert_eq!(
        a.get_or_seal(),
        Err(OnceLockFreeError::AttemptToSetConcurrently)
    );
    assert_eq!(a.get(), Err(OnceLockFreeError::AttemptToSetConcurrently));
    assert_eq!(a.get_poll(), None);
    assert_eq!(a.set_prepared(6u32), Ok(&6u32));
    assert_eq!(a.set_prepared(7u32), Err(OnceLockFreeError::AlreadySet));
    assert_eq!(a.set(8u32), Err(OnceLockFreeError::AlreadySet));
    assert_eq!(a.get(), Ok(&6u32));
    assert_eq!(a.get_or_prepare_to_set(), Ok(Some(&6u32)));
}

#[test]
fn once_get_seals_an_empty_cell() {
    let a: OnceLockFree<String> = OnceLockFree::new();
    assert_eq!(a.get_poll(), None);
    assert_eq!(a.get(), Err(OnceLockFreeError::AttemptToReadWhenUnset));
    assert_eq!(
        a.set("late".to_string()),
        Err(OnceLockFreeError::AlreadySet)
    );
    assert_eq!(
        a.set_prepared("late".to_string()),
        Err(OnceLockFreeError::AlreadySet)
    );
    assert_eq!(a.get_or_seal(), Ok(None));
    assert_eq!(a.get_or_prepare_to_set(), Ok(None));
    assert_eq!(a.get_poll(), None);
    assert_eq!(a.get(), Err(OnceLockFreeError::AttemptToReadWhenUnset));
}

#[test]
fn once_poll_changes_nothing() {
    let a = OnceLockFree::new();
    for _ in 0..3 {
        assert_eq!(a.get_poll(), None);
    }
    assert_eq!(a.set(vec![1, 2, 3]), Ok(&vec![1, 2, 3]));
    for _ in 0..3 {
        assert_eq!(a.get_poll(), Some(&vec![1, 2, 3]));
    }
}

#[test]
fn once_keeps_the_first_of_many() {
    let cell: OnceLockFree<u64> = OnceLockFree::new();
    let winners = std::sync::atomic::AtomicU64::new(0);
    crossbeam_utils::thread::scope(|s| {
        for n in 0..64u64 {
            let cell = &cell;
            let winners = &winners;
            s.spawn(move |_| match cell.set(n) {
                Ok(v) => {
                    assert_eq!(*v, n);
                    winners.fetch_add(1, std::sync::atomic::Ordering::SeqCst);
                }
                Err(e) => assert_eq!(e, OnceLockFreeError::AlreadySet),
            });
        }
    })
    .unwrap();
    assert_eq!(winners.load(std::sync::atomic::Ordering::SeqCst), 1);
    let kept = *cell.get().unwrap();
    assert!(kept < 64);
    assert_eq!(cell.get_poll(), Some(&kept));
}

struct Counted<'a>(&'a std::sync::atomic::AtomicU64);

impl Drop for Counted<'_> {
    fn drop(&mut self) {
        self.0.fetch_add(1, std::sync::atomic::Ordering::SeqCst);
    }
}

#[test]
fn once_drop_frees_the_value() {
    let drops = std::sync::atomic::AtomicU64::new(0);
    {
        let cell = OnceLockFree::new();
        assert!(cell.set(Counted(&drops)).is_ok());
        // The loser's value is freed at once.
        assert!(cell.set(Counted(&drops)).is_err());
        assert_eq!(drops.load(std::sync::atomic::Ordering::SeqCst), 1);
    }
    assert_eq!(drops.load(std::sync::atomic::Ordering::SeqCst), 2);
    {
        let _empty: OnceLockFree<Counted> = OnceLockFree::new();
        let prepared: OnceLockFree<Counted> = OnceLockFree::new();
        assert!(prepared.get_or_prepare_to_set().is_ok());
    }
    assert_eq!(drops.load(std::sync::atomic::Ordering::SeqCst), 2);
}

#[test]
fn once_error_text() {
    assert_eq!(OnceLockFreeError::AlreadySet.to_string(), "AlreadySet");
    assert_eq!(
        OnceLockFreeError::AttemptToReadWhenUnset.to_string(),
        "AttemptToReadWhenUnset"
    );
    assert_eq!(
        OnceLockFreeError::AttemptToSetConcurrently.to_string(),
        "AttemptToSetConcurrently"
    );
    assert_eq!(
        OnceLockFreeError::UnpreparedForSet.to_string(),
        "UnpreparedForSet"
    );
}
