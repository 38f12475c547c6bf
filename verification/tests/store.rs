use atomic_try_update::store::Arena;
use atomic_try_update::{Node, NodeIterator};

fn drain<T>(mut it: NodeIterator<T>) -> Vec<T> {
    let mut out = vec![];
    while let Some(v) = it.next() {
        out.push(v);
    }
    out
}

#[test]
fn arena_insert_and_read() {
    let mut arena: Arena<&str> = Arena::new();
    assert!(!arena.contains(0));
    assert!(!arena.contains(1));
    let a = arena.insert("a", 0);
    let b = arena.insert("b", a);
    assert_ne!(a, 0);
    assert_ne!(b, 0);
    assert_ne!(a, b);
    assert!(arena.contains(a) && arena.contains(b));
    assert_eq!(arena.next_of(a), 0);
    assert_eq!(arena.next_of(b), a);
    assert!(!arena.contains(0));
    assert!(!arena.contains(b + 100));
    assert_eq!(arena.next_of(0), 0);
    assert_eq!(arena.next_of(u64::MAX), 0);
    assert_eq!(arena.remove(b), Some(("b", a)));
    assert_eq!(arena.remove(a), Some(("a", 0)));
}

#[test]
fn arena_remove_frees_the_handle() {
    let mut arena: Arena<u32> = Arena::new();
    let a = arena.insert(10, 0);
    let b = arena.insert(20, a);
    assert_eq!(arena.remove(a), Some((10, 0)));
    assert_eq!(arena.remove(a), None);
    assert!(!arena.contains(a));
    assert!(arena.contains(b));
    assert_eq!(arena.remove(0), None);
    assert_eq!(arena.remove(u64::MAX), None);
    // The freed handle is used again, and the live one is left alone.
    let c = arena.insert(30, 0);
    assert_eq!(c, a);
    assert_ne!(c, b);
    assert!(arena.contains(c) && arena.contains(b));
    let d = arena.insert(40, 0);
    assert!(d != a && d != b);
    assert_eq!(arena.remove(b), Some((20, a)));
    assert_eq!(arena.remove(c), Some((30, 0)));
    assert_eq!(arena.remove(d), Some((40, 0)));
}

#[test]
fn arena_set_next() {
    let mut arena: Arena<u8> = Arena::new();
    let a = arena.insert(1, 0);
    let b = arena.insert(2, 0);
    arena.set_next(b, a);
    assert_eq!(arena.next_of(b), a);
    arena.set_next(b, 0);
    assert_eq!(arena.next_of(b), 0);
    // A handle that names no node changes nothing.
    arena.set_next(0, a);
    arena.set_next(77, a);
    assert!(!arena.contains(77));
    assert_eq!(arena.next_of(a), 0);
    assert_eq!(arena.remove(b), Some((2, 0)));
    assert_eq!(arena.remove(a), Some((1, 0)));
}

#[test]
fn arena_take_chain() {
    let mut arena: Arena<u32> = Arena::new();
    let a = arena.insert(1, 0);
    let b = arena.insert(2, a);
    let other = arena.insert(99, 0);
    let c = arena.insert(3, b);
    assert_eq!(drain(arena.take_chain(c)), vec![3, 2, 1]);
    assert!(!arena.contains(a) && !arena.contains(b) && !arena.contains(c));
    assert!(arena.contains(other));
    assert_eq!(drain(arena.take_chain(c)), Vec::<u32>::new());
    assert_eq!(drain(arena.take_chain(0)), Vec::<u32>::new());
    assert_eq!(drain(arena.take_chain(other)), vec![99]);
}

#[test]
fn arena_take_chain_from_the_middle() {
    let mut arena: Arena<u32> = Arena::new();
    let a = arena.insert(1, 0);
    let b = arena.insert(2, a);
    let c = arena.insert(3, b);
    assert_eq!(drain(arena.take_chain(b)), vec![2, 1]);
    // The link of the head now leads nowhere.
    assert_eq!(drain(arena.take_chain(c)), vec![3]);
}

#[test]
fn arena_take_chain_stops_on_a_cycle() {
    let mut arena: Arena<u32> = Arena::new();
    let a = arena.insert(1, 0);
    let b = arena.insert(2, a);
    arena.set_next(a, b);
    assert_eq!(drain(arena.take_chain(b)), vec![2, 1]);
    assert!(!arena.contains(a) && !arena.contains(b));
}

#[test]
fn node_iterator_yields_head_first() {
    let chain = Some(Box::new(Node {
        val: 1,
        next: Some(Box::new(Node {
            val: 2,
            next: Some(Box::new(Node { val: 3, next: None })),
        })),
    }));
    let mut it = NodeIterator::new(chain);
    assert_eq!(it.next(), Some(1));
    assert_eq!(it.next(), Some(2));
    assert_eq!(it.next(), Some(3));
    assert_eq!(it.next(), None);
    assert_eq!(it.next(), None);
    let mut empty: NodeIterator<u8> = NodeIterator::new(None);
    assert_eq!(empty.next(), None);
}

fn chain_of(vals: &[u32]) -> NodeIterator<u32> {
    let mut head = None;
    for v in vals.iter().rev() {
        head = Some(Box::new(Node { val: *v, next: head }));
    }
    NodeIterator::new(head)
}

#[test]
fn node_iterator_rev() {
    assert_eq!(drain(chain_of(&[1, 2, 3, 4]).rev()), vec![4, 3, 2, 1]);
    assert_eq!(drain(chain_of(&[1]).rev()), vec![1]);
    assert_eq!(drain(chain_of(&[]).rev()), Vec::<u32>::new());
    // Twice is the identity.
    assert_eq!(drain(chain_of(&[5, 6, 7]).rev().rev()), vec![5, 6, 7]);
    // A chain that was partly consumed reverses what is left.
    let mut it = chain_of(&[1, 2, 3, 4]);
    assert_eq!(it.next(), Some(1));
    assert_eq!(drain(it.rev()), vec![4, 3, 2]);
}

#[test]
fn node_iterator_drops_a_long_chain() {
    let mut head = None;
    for v in 0..1_000_000u32 {
        head = Some(Box::new(Node { val: v, next: head }));
    }
    let mut it = NodeIterator::new(head).rev();
    assert_eq!(it.next(), Some(0));
    assert_eq!(it.next(), Some(1));
    drop(it);
}

struct Counted<'a>(&'a std::sync::atomic::AtomicU64);

impl Drop for Counted<'_> {
    fn drop(&mut self) {
        self.0.fetch_add(1, std::sync::atomic::Ordering::SeqCst);
    }
}

#[test]
fn node_iterator_drop_frees_what_is_left() {
    let drops = std::sync::atomic::AtomicU64::new(0);
    let mut head = None;
    for _ in 0..10 {
        head = Some(Box::new(Node {
            val: Counted(&drops),
            next: head,
        }));
    }
    let mut it = NodeIterator::new(head);
    drop(it.next());
    assert_eq!(drops.load(std::sync::atomic::Ordering::SeqCst), 1);
    drop(it);
    assert_eq!(drops.load(std::sync::atomic::Ordering::SeqCst), 10);
}
