use kernel::libs::allocator::{SimpleAllocator, ARENA_SIZE};
use kernel::libs::cell::once::{OnceCell, OnceCellState};
use kernel::libs::cell::Cell;
use kernel::libs::sync::mutex::Mutex;

#[test]
fn cell_holds_what_was_put_in() {
    let mut cell = Cell::new(5u32);
    assert_eq!(*cell.get(), 5);
    cell.set(6);
    assert_eq!(*cell.get(), 6);
    *cell.get_mut() += 10;
    assert_eq!(*cell.get(), 16);
}

#[test]
fn once_cell_is_filled_once() {
    let mut cell: OnceCell<u32> = OnceCell::new();
    assert_eq!(cell.get(), Err(()));
    cell.set(1);
    assert_eq!(cell.get(), Ok(&1));
    assert_eq!(cell.get(), Ok(&1));
    // A cell that holds something keeps it, and the closure is not called.
    let mut called = false;
    assert_eq!(
        *cell.get_or_set(|| {
            called = true;
            3
        }),
        1
    );
    assert!(!called);
    assert_eq!(cell.get(), Ok(&1));
    let mut empty: OnceCell<u32> = OnceCell::new();
    assert_eq!(*empty.get_or_set(|| 3), 3);
    assert_eq!(empty.get(), Ok(&3));
    assert_eq!(*empty.get_or_set(|| 4), 3);
    let busy: OnceCell<u32> = OnceCell { state: OnceCellState::Initializing };
    assert_eq!(busy.get(), Err(()));
}

#[test]
fn lock_is_taken_by_one_at_a_time() {
    let mut mutex = Mutex::new(7u32);
    assert!(!mutex.locked);
    assert!(mutex.try_lock());
    assert!(mutex.locked);
    assert!(!mutex.try_lock());
    assert!(mutex.locked);
    mutex.unlock();
    assert!(!mutex.locked);
    assert_eq!(mutex.data, 7);
    let mut guard = mutex.lock().unwrap();
    guard.data += 1;
    let mut mutex = guard.release();
    assert!(!mutex.locked);
    assert_eq!(mutex.data, 8);
    assert!(mutex.try_lock());
    assert!(mutex.lock().is_none());
}

#[test]
fn bump_allocator_counts_down() {
    let mut a = SimpleAllocator::new();
    assert_eq!(ARENA_SIZE, 128 * 1024);
    assert_eq!(a.get_free(), ARENA_SIZE);
    assert_eq!(a.get_used(), 0);
    assert_eq!(a.allocate(10, 1), Some(ARENA_SIZE - 10));
    assert_eq!(a.allocate(10, 16), Some(ARENA_SIZE - 32));
    assert_eq!(a.get_used(), 32);
    assert_eq!(a.get_free(), ARENA_SIZE - 32);
    assert_eq!(a.allocate(0, 4096), Some(ARENA_SIZE - 4096));
    assert_eq!(a.allocate(1, 8192), None);
    assert_eq!(a.allocate(ARENA_SIZE, 1), None);
    assert_eq!(a.get_free(), ARENA_SIZE - 4096);
    a.dealloc(ARENA_SIZE - 10, 10, 1);
    assert_eq!(a.get_free(), ARENA_SIZE - 4096);
    assert_eq!(a.allocate(ARENA_SIZE - 4096, 1), Some(0));
    assert_eq!(a.get_free(), 0);
    assert_eq!(a.allocate(0, 1), Some(0));
    assert_eq!(a.allocate(1, 1), None);
}

#[test]
fn filled_cell_hands_out_what_it_holds() {
    let mut cell: OnceCell<&str> = OnceCell::new();
    cell.set("ready");
    assert_eq!(*cell.get_unchecked(), "ready");
}
