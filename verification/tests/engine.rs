use atomic_try_update::bits::FlagU64;
use atomic_try_update::{atomic_try_update, Atom, AtomRecord};

fn read(atom: &Atom<FlagU64, u64>) -> (u64, bool) {
    atomic_try_update(atom, |s: &mut FlagU64| {
        (false, (s.get_val(), s.get_flag()))
    })
}

#[test]
fn a_new_atom_is_all_zero() {
    let atom: Atom<FlagU64, u64> = Atom::default();
    assert_eq!(read(&atom), (0, false));
}

#[test]
fn a_commit_is_stored() {
    let atom: Atom<FlagU64, u64> = Atom::default();
    let before = atomic_try_update(&atom, |s: &mut FlagU64| {
        let before = s.get_val();
        s.set_val(before + 5);
        (true, before)
    });
    assert_eq!(before, 0);
    assert_eq!(read(&atom), (5, false));
    let before = atomic_try_update(&atom, |s: &mut FlagU64| {
        let before = s.get_val();
        s.set_flag(true);
        (true, before)
    });
    assert_eq!(before, 5);
    assert_eq!(read(&atom), (5, true));
}

#[test]
fn a_declined_transaction_stores_nothing() {
    let atom: Atom<FlagU64, u64> = Atom::default();
    let out = atomic_try_update(&atom, |s: &mut FlagU64| {
        s.set_val(99);
        (false, "declined")
    });
    assert_eq!(out, "declined");
    assert_eq!(read(&atom), (0, false));
}

#[test]
fn fetch_update_returns_what_it_replaced() {
    let atom: Atom<FlagU64, u64> = Atom::default();
    let res = atom.fetch_update(|s: FlagU64| {
        let mut next = s;
        next.set_val(7);
        Some(next)
    });
    assert_eq!(res.map(|s| s.get_val()).map_err(|s| s.get_val()), Ok(0));
    let res = atom.fetch_update(|s: FlagU64| if s.get_val() == 7 { None } else { Some(s) });
    assert_eq!(res.map(|s| s.get_val()).map_err(|s| s.get_val()), Err(7));
    assert_eq!(read(&atom), (7, false));
}

#[test]
fn transactions_of_many_threads_all_count() {
    let atom: Atom<FlagU64, u64> = Atom::default();
    crossbeam_utils::thread::scope(|s| {
        for _ in 0..16 {
            let atom = &atom;
            s.spawn(move |_| {
                for _ in 0..10_000 {
                    atomic_try_update(atom, |s: &mut FlagU64| {
                        let count = s.get_val();
                        s.set_val(count + 1);
                        (true, ())
                    });
                }
            });
        }
    })
    .unwrap();
    assert_eq!(read(&atom), (160_000, false));
}

#[test]
fn flag_word_is_its_own_image() {
    let mut w = FlagU64::default();
    w.set_val(21);
    w.set_flag(true);
    assert_eq!(w.pack(), 43);
    let back = FlagU64::unpack(43);
    assert_eq!((back.get_val(), back.get_flag()), (21, true));
}
