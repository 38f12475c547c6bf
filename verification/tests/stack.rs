use atomic_try_update::stack::{Head, NonceHead, NonceStack, Stack};
use atomic_try_update::AtomRecord;
use std::sync::atomic::Ordering;

#[test]
fn stack_smoke() {
    let stack: Stack<u64> = Default::default();
    assert_eq!(stack.pop_all().next(), None);
    stack.push(1);
    stack.push(2);
    stack.push(3);
    {
        let mut it = stack.pop_all();
        assert_eq!(it.next(), Some(3));
        assert_eq!(it.next(), Some(2));
        assert_eq!(it.next(), Some(1));
        assert_eq!(it.next(), None);
    }
    assert_eq!(stack.pop_all().next(), None);
}

#[test]
fn test_node_iterator_reverse() {
    let stack: Stack<u64> = Default::default();

    for i in 1..100 {
        stack.push(i);
    }

    let mut iter = stack.pop_all().rev();
    for i in 1..100 {
        assert_eq!(iter.next().unwrap(), i);
    }
    assert_eq!(iter.next(), None);
}

fn worker(num_inserts: u64, n: u64, stack: &Stack<u64>, total: &std::sync::atomic::AtomicU64) {
    let mut count = 0;
    for i in 0..num_inserts {
        stack.push(n * num_inserts + i);
        if i % 17 == 0 {
            let mut node_it = stack.pop_all();
            while let Some(_next) = node_it.next() {
                count += 1;
            }
        }
    }
    let mut node_it = stack.pop_all();
    while let Some(_next) = node_it.next() {
        count += 1;
    }
    total.fetch_add(count, std::sync::atomic::Ordering::SeqCst);
}

const NUM_THREADS: u64 = 100;
const NUM_INSERTS: u64 = 10000;

#[test]
fn test_stack() {
    let stack: Stack<u64> = Default::default();
    // check empty stack case.
    let mut node_it = stack.pop_all();
    assert_eq!(node_it.next(), None);
    let total = std::sync::atomic::AtomicU64::new(0);
    crossbeam_utils::thread::scope(|s| {
        for n in 0..NUM_THREADS {
            let stack = &stack;
            let total = &total;
            s.spawn(move |_| {
                worker(NUM_INSERTS, n, stack, total);
            });
        }
    })
    .unwrap();
    assert_eq!(
        total.load(std::sync::atomic::Ordering::SeqCst),
        NUM_THREADS * NUM_INSERTS
    );
}

#[test]
fn test_nonce_stack() {
    let stack: NonceStack<u64> = Default::default();
    assert!(stack.pop().is_none());

    let total = 250_000u64;
    let pushed = std::sync::atomic::AtomicU64::new(0);
    let popped = std::sync::atomic::AtomicU64::new(0);

    crossbeam_utils::thread::scope(|s| {
        for _n in 0..NUM_THREADS {
            let stack = &stack;
            let pushed = &pushed;
            let popped = &popped;
            let total = &total;
            s.spawn(move |_| loop {
                let mut done = true;
                let val = pushed.fetch_add(1, Ordering::Relaxed);
                if val < *total {
                    stack.push(val);
                    done = false;
                }
                if let Some(_popped) = stack.pop() {
                    popped.fetch_add(1, Ordering::Relaxed);
                    done = false;
                }
                if done {
                    break;
                }
            });
        }
    })
    .unwrap();
    assert!(stack.pop().is_none());
    assert_eq!(popped.load(Ordering::Relaxed), total);
}

#[test]
fn nonce_stack_is_lifo() {
    let stack: NonceStack<&str> = Default::default();
    assert_eq!(stack.pop(), None);
    stack.push("a");
    stack.push("b");
    assert_eq!(stack.pop(), Some("b"));
    stack.push("c");
    assert_eq!(stack.pop(), Some("c"));
    assert_eq!(stack.pop(), Some("a"));
    assert_eq!(stack.pop(), None);
    assert_eq!(stack.pop(), None);
}

#[test]
fn nonce_head_transactions() {
    let mut head = NonceHead::unpack(0);
    assert_eq!(head.head(), 0);
    assert_eq!(head.pop_on(5), (false, 0));
    assert_eq!(head.pack(), 0);
    assert_eq!(head.push_on(3), 0);
    assert_eq!(head.head(), 3);
    assert_eq!(head.pack(), 3 | (1u128 << 64));
    assert_eq!(head.push_on(9), 3);
    assert_eq!(head.pack(), 9 | (2u128 << 64));
    assert_eq!(head.pop_on(3), (true, 9));
    assert_eq!(head.pack(), 3 | (3u128 << 64));
    // The nonce wraps around.
    let mut last = NonceHead::unpack(7 | ((u64::MAX as u128) << 64));
    assert_eq!(last.push_on(8), 7);
    assert_eq!(last.pack(), 8);
    let mut last = NonceHead::unpack(7 | ((u64::MAX as u128) << 64));
    assert_eq!(last.pop_on(0), (true, 7));
    assert_eq!(last.pack(), 0);
}

#[test]
fn head_transactions() {
    let mut head = Head::unpack(0);
    assert_eq!(head.push_on(4), 0);
    assert_eq!(head.pack(), 4);
    assert_eq!(head.push_on(2), 4);
    assert_eq!(head.pack(), 2);
    assert_eq!(head.pop_all_on(), (true, 2));
    assert_eq!(head.pack(), 0);
    assert_eq!(head.pop_all_on(), (true, 0));
    assert_eq!(head.pack(), 0);
}

#[test]
fn stack_pop_all_is_lifo_and_rev_is_fifo() {
    let stack: Stack<String> = Default::default();
    for word in ["one", "two", "three"] {
        stack.push(word.to_string());
    }
    let mut it = stack.pop_all();
    assert_eq!(it.next().as_deref(), Some("three"));
    // Pushes that come while an iterator is out do not reach it.
    stack.push("four".to_string());
    assert_eq!(it.next().as_deref(), Some("two"));
    assert_eq!(it.next().as_deref(), Some("one"));
    assert_eq!(it.next(), None);
    stack.push("five".to_string());
    let mut fifo = stack.pop_all().rev();
    assert_eq!(fifo.next().as_deref(), Some("four"));
    assert_eq!(fifo.next().as_deref(), Some("five"));
    assert_eq!(fifo.next(), None);
}

#[test]
fn stack_drains_what_was_pushed() {
    let stack: Stack<u64> = Default::default();
    let pushed: Vec<u64> = (0..1000).map(|i| i * 7 % 13).collect();
    for v in &pushed {
        stack.push(*v);
    }
    let mut drained = vec![];
    let mut it = stack.pop_all();
    while let Some(v) = it.next() {
        drained.push(v);
    }
    assert_eq!(drained.len(), pushed.len());
    let mut expected = pushed.clone();
    expected.reverse();
    assert_eq!(drained, expected);
    assert_eq!(stack.pop_all().next(), None);
}

struct Counted<'a>(&'a std::sync::atomic::AtomicU64);

impl Drop for Counted<'_> {
    fn drop(&mut self) {
        self.0.fetch_add(1, std::sync::atomic::Ordering::SeqCst);
    }
}

#[test]
fn stack_drop_frees_what_is_left() {
    let drops = std::sync::atomic::AtomicU64::new(0);
    {
        let stack = Stack::default();
        for _ in 0..5 {
            stack.push(Counted(&drops));
        }
        drop(stack.pop_all().next());
        assert_eq!(drops.load(std::sync::atomic::Ordering::SeqCst), 5);
        for _ in 0..3 {
            stack.push(Counted(&drops));
        }
    }
    assert_eq!(drops.load(std::sync::atomic::Ordering::SeqCst), 8);
}

#[test]
fn test_tokio_stack() {
    let runtime = tokio::runtime::Builder::new_multi_thread()
        .build()
        .unwrap();
    let stack: Stack<u64> = Default::default();

    // check empty stack case.
    let mut node_it = stack.pop_all();
    assert_eq!(node_it.next(), None);
    let total = std::sync::atomic::AtomicU64::new(0);

    let stack = std::sync::Arc::new(stack);
    let total = std::sync::Arc::new(total);
    runtime.block_on(async {
        let mut workers = vec![];
        for n in 0..NUM_THREADS {
            // We move the Arcs into the task at spawn, but worker
            // takes them by reference.
            let stack = stack.clone();
            let total = total.clone();
            workers.push(tokio::spawn(async move {
                worker(NUM_INSERTS, n, &stack, &total);
            }));
        }
        for w in workers {
            w.await.unwrap();
        }
    });
    assert_eq!(
        total.load(std::sync::atomic::Ordering::SeqCst),
        NUM_THREADS * NUM_INSERTS
    );
}

#[test]
fn stack_loses_nothing_between_pop_alls() {
    let stack: Stack<u64> = Default::default();
    let mut pushed = vec![];
    let mut drained = vec![];
    for round in 0..20u64 {
        for i in 0..(round % 5) + 1 {
            let v = round * 100 + i % 3;
            stack.push(v);
            pushed.push(v);
        }
        if round % 3 != 1 {
            let before = drained.len();
            let mut it = stack.pop_all();
            while let Some(v) = it.next() {
                drained.push(v);
            }
            // Each iterator hands out its batch last pushed first.
            let batch: Vec<u64> = drained[before..].to_vec();
            let mut expected: Vec<u64> = pushed[before..].to_vec();
            expected.reverse();
            assert_eq!(batch, expected);
        }
    }
    let mut it = stack.pop_all();
    while let Some(v) = it.next() {
        drained.push(v);
    }
    assert_eq!(drained.len(), pushed.len());
    pushed.sort();
    drained.sort();
    assert_eq!(drained, pushed);
    assert_eq!(stack.pop_all().next(), None);
}
