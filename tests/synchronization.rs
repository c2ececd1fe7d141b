use rpi_kernel::synchronization::{FakeLock, Mutex, MutexGuard, SpinLock};

#[test]
fn guard_releases_lock_at_end_of_scope() {
    let mut l = SpinLock::new(5u32);
    {
        let g = l.lock().unwrap();
        assert_eq!(*g.data(), 5);
    }
    assert!(!l.is_held());
    assert!(l.lock().is_ok());
    assert!(!l.is_held());
}

fn read_first(l: &mut SpinLock<u32>) -> Option<u32> {
    let g = l.lock().ok()?;
    if *g.data() > 3 {
        return Some(*g.data());
    }
    None
}

#[test]
fn guard_releases_lock_on_early_return() {
    let mut l = SpinLock::new(7u32);
    assert_eq!(read_first(&mut l), Some(7));
    assert!(!l.is_held());
}

#[test]
fn held_spin_lock_refuses_second_holder() {
    let mut l = SpinLock::new(1u8);
    assert!(l.try_lock());
    assert!(l.is_held());
    assert!(!l.try_lock());
    *l.get_data_mut() = 2;
    l.unlock();
    assert!(!l.is_held());
    assert_eq!(*l.get_data(), 2);
}

#[test]
fn guard_built_directly_releases_on_drop() {
    let mut l = SpinLock::new(3u64);
    assert!(l.try_lock());
    {
        let g = MutexGuard::new(&mut l);
        assert_eq!(*g.data(), 3);
    }
    assert!(!l.is_held());
}

#[test]
fn fake_lock_never_excludes() {
    let mut l = FakeLock::new(4i32);
    assert!(l.try_lock());
    assert!(l.try_lock());
    assert!(!l.is_held());
    *l.lock().unwrap() = 9;
    assert_eq!(*l.get_data(), 9);
    l.unlock();
    assert_eq!(*l.get_data(), 9);
}
