use mcl_rs::{Busy, RangeAllocator};

#[test]
fn acquire_on_empty_allocator() {
    let mut a = RangeAllocator::new(100);
    assert_eq!(a.try_acquire(10, 20), Ok(()));
    assert!(a.holds(10, 20));
    assert_eq!(a.num_locked(), 1);
}

#[test]
fn touching_ranges_coexist() {
    let mut a = RangeAllocator::new(100);
    assert_eq!(a.try_acquire(0, 50), Ok(()));
    assert_eq!(a.try_acquire(50, 100), Ok(()));
    assert_eq!(a.num_locked(), 2);
}

#[test]
fn same_start_is_busy() {
    let mut a = RangeAllocator::new(100);
    assert_eq!(a.try_acquire(10, 20), Ok(()));
    assert_eq!(a.try_acquire(10, 12), Err(Busy));
    assert_eq!(a.num_locked(), 1);
}

#[test]
fn overlap_from_below_is_busy() {
    let mut a = RangeAllocator::new(100);
    assert_eq!(a.try_acquire(10, 20), Ok(()));
    assert_eq!(a.try_acquire(15, 25), Err(Busy));
    assert_eq!(a.try_acquire(5, 11), Err(Busy));
    assert_eq!(a.try_acquire(0, 100), Err(Busy));
    assert_eq!(a.try_acquire(12, 14), Err(Busy));
    assert_eq!(a.try_acquire(20, 30), Ok(()));
    assert_eq!(a.try_acquire(0, 10), Ok(()));
}

#[test]
fn release_frees_the_range() {
    let mut a = RangeAllocator::new(100);
    assert_eq!(a.try_acquire(10, 20), Ok(()));
    a.release(10, 20);
    assert!(!a.holds(10, 20));
    assert_eq!(a.num_locked(), 0);
    assert_eq!(a.try_acquire(15, 25), Ok(()));
}

#[test]
fn full_range_at_the_size() {
    let mut a = RangeAllocator::new(100);
    assert_eq!(a.total_size(), 100);
    assert_eq!(a.try_acquire(0, 100), Ok(()));
    assert_eq!(a.try_acquire(99, 100), Err(Busy));
}

#[test]
fn random_sequences_never_overlap() {
    let size: usize = 64;
    let mut a = RangeAllocator::new(size);
    let mut held: Vec<(usize, usize)> = Vec::new();
    let mut seed: u64 = 0x2545F4914F6CDD1D;
    for _ in 0..2000 {
        seed ^= seed << 13;
        seed ^= seed >> 7;
        seed ^= seed << 17;
        let x = (seed % size as u64) as usize;
        let y = ((seed >> 20) % size as u64) as usize;
        let (s, e) = if x <= y { (x, y + 1) } else { (y, x + 1) };
        if (seed >> 40) % 3 == 0 && !held.is_empty() {
            let k = ((seed >> 8) as usize) % held.len();
            let (rs, re) = held.swap_remove(k);
            a.release(rs, re);
        } else {
            let clash = held
                .iter()
                .any(|&(hs, he)| hs == s || (hs < e && s < he));
            match a.try_acquire(s, e) {
                Ok(()) => {
                    assert!(!clash);
                    held.push((s, e));
                }
                Err(Busy) => assert!(clash),
            }
        }
        for i in 0..held.len() {
            for j in 0..held.len() {
                if i != j {
                    let (s1, e1) = held[i];
                    let (s2, e2) = held[j];
                    assert!(e1 <= s2 || e2 <= s1);
                }
            }
        }
        assert_eq!(a.num_locked(), held.len());
    }
}
