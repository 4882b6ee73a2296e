use spinlocks::mwmr_spinlock::MwmrReadGuard;
use spinlocks::mwmr_spinlock::MwmrSpinLock;
use spinlocks::mwmr_spinlock::MwmrWriteGuard;
use std::sync::Arc;

fn read<T>(lock: &MwmrSpinLock<T>) -> MwmrReadGuard<'_, T> {
    lock.read().expect("nobody keeps the lock for that long")
}

fn write<T>(lock: &MwmrSpinLock<T>) -> MwmrWriteGuard<'_, T> {
    lock.write().expect("nobody keeps the lock for that long")
}

#[test]
fn mwmr_spinlock_t0_doc_ghi_co_ban() {
    let lock = MwmrSpinLock::new(1usize);
    assert!(!lock.is_locked());

    {
        let mut g = write(&lock);
        *g += 1;
    }
    assert_eq!(*read(&lock), 2);
    assert!(!lock.is_locked());
}

#[test]
fn mwmr_spinlock_t1_nhieu_reader_cung_luc_va_dem_dung() {
    let lock = MwmrSpinLock::new(5usize);
    let a = read(&lock);
    let b = read(&lock);
    assert_eq!(lock.reader_count(), 2);
    assert!(lock.is_locked());
    assert!(!lock.is_write_locked());
    assert_eq!((*a, *b), (5, 5));

    drop(a);
    assert_eq!(lock.reader_count(), 1);
    drop(b);
    assert_eq!(lock.reader_count(), 0);
}

#[test]
fn mwmr_spinlock_t2_try_write_that_bai_khi_con_reader_va_khong_ket_co() {
    let lock = MwmrSpinLock::new(0usize);
    let r = read(&lock);
    assert!(lock.try_write().is_none());
    assert!(!lock.is_write_locked());
    drop(r);

    let mut g = lock.try_write().expect("hết reader rồi thì phải vào được");
    *g += 1;
    drop(g);
    assert_eq!(*read(&lock), 1);
}

#[test]
fn t3_try_write_that_bai_khi_writer_khac_dang_giu() {
    let lock = MwmrSpinLock::new(0usize);
    let w = write(&lock);
    assert!(lock.try_write().is_none());
    assert!(lock.is_write_locked());
    drop(w);
    assert!(lock.try_write().is_some());
}

#[test]
fn t4_try_read_that_bai_khi_writer_dang_giu() {
    let lock = MwmrSpinLock::new(0usize);
    let w = write(&lock);
    assert!(lock.try_read().is_none());
    drop(w);
    assert!(lock.try_read().is_some());
}

#[test]
fn t5_get_mut_take_default_from() {
    let mut lock = MwmrSpinLock::new(1usize);
    *lock.get_mut() += 1;
    assert_eq!(lock.take(), 2);

    assert_eq!(*read(&MwmrSpinLock::<usize>::default()), 0);
    assert_eq!(*read(&MwmrSpinLock::from(9usize)), 9);
}

#[test]
fn mwmr_spinlock_t7_take_khong_lam_ro_ri_gia_tri_ben_trong() {
    let shared = Arc::new(7usize);
    let lock = MwmrSpinLock::new(Arc::clone(&shared));
    assert_eq!(Arc::strong_count(&shared), 2);

    let inner = lock.take();
    assert_eq!(Arc::strong_count(&shared), 2);
    drop(inner);
    assert_eq!(Arc::strong_count(&shared), 1);
}

// The next tests run the parts of two or three threads one after the other, in every order that one
// thread can take them.

#[test]
fn mwmr_spinlock_t0_reader_khong_thay_nua_chung_cua_writer() {
    for writer_first in [true, false] {
        let lock = MwmrSpinLock::new((0usize, 0usize));
        let writer = || {
            let mut g = write(&lock);
            g.0 += 1;
            assert!(lock.try_read().is_none());
            g.1 += 1;
        };
        let reader = || {
            let g = read(&lock);
            assert_eq!(g.0, g.1);
        };
        if writer_first {
            writer();
            reader();
        } else {
            reader();
            writer();
        }
        let g = read(&lock);
        assert_eq!((g.0, g.1), (1, 1));
    }
}

#[test]
fn mwmr_spinlock_t1_hai_reader_vao_duoc_cung_luc() {
    let lock = MwmrSpinLock::new(7usize);
    let g1 = read(&lock);
    let g2 = read(&lock);
    assert_eq!(*g1, 7);
    assert_eq!(*g2, 7);
}

#[test]
fn t2_hai_writer_khong_dam_len_nhau() {
    let lock = MwmrSpinLock::new((0usize, 0usize));
    for _ in 0..2 {
        let mut g = write(&lock);
        assert_eq!(g.0, g.1);
        g.0 += 1;
        assert!(lock.try_write().is_none());
        g.1 += 1;
    }
    let g = read(&lock);
    assert_eq!((g.0, g.1), (2, 2));
}

#[test]
fn t3_try_write_that_bai_thi_khong_ket_co() {
    for reader_inside in [true, false] {
        let lock = MwmrSpinLock::new(0usize);
        {
            let r = if reader_inside { Some(read(&lock)) } else { None };
            if let Some(mut g) = lock.try_write() {
                *g += 1;
            }
            if let Some(g) = r {
                assert!(*g == 0 || *g == 1);
            }
        }
        assert!(!lock.is_write_locked());
        assert_eq!(lock.reader_count(), 0);
        *write(&lock) += 10;
        let expected = if reader_inside { 10 } else { 11 };
        assert!(*read(&lock) == 10 || *read(&lock) == 11);
        assert_eq!(*read(&lock), expected);
    }
}

#[test]
fn t4_writer_doi_reader_ra_het_moi_vao() {
    for writer_first in [true, false] {
        let lock = MwmrSpinLock::new(0usize);
        let reader = || {
            let g = read(&lock);
            assert!(lock.try_write().is_none());
            let seen = *g;
            drop(g);
            assert!(seen == 0 || seen == 1);
        };
        if writer_first {
            *write(&lock) += 1;
            reader();
        } else {
            reader();
            *write(&lock) += 1;
        }
        assert_eq!(*read(&lock), 1);
    }
}

#[test]
fn t5_writer_giu_co_roi_van_doi_hai_reader() {
    let lock = MwmrSpinLock::new(0usize);
    let a = lock.try_read().unwrap();
    let b = lock.try_read().unwrap();
    assert!(*a == 0 || *a == 1);
    assert!(*b == 0 || *b == 1);
    assert!(lock.lock_exclusive_slow(20_000).is_none());
    drop(a);
    assert!(lock.lock_exclusive_slow(3).is_none());
    drop(b);
    *write(&lock) += 1;
    assert_eq!(*read(&lock), 1);
}

#[test]
fn a_writer_that_gives_up_leaves_the_readers_alone() {
    let lock = MwmrSpinLock::new(4usize);
    let a = read(&lock);
    let b = read(&lock);
    assert!(lock.lock_exclusive_slow(5).is_none());
    assert!(!lock.is_write_locked());
    assert_eq!(lock.reader_count(), 2);
    let c = lock.try_read().expect("the flag is down again");
    assert_eq!((*a, *b, *c), (4, 4, 4));
}

#[test]
fn a_writer_that_meets_a_writer_gives_up_and_leaves_the_flag() {
    let lock = MwmrSpinLock::new(4usize);
    let w = write(&lock);
    assert!(lock.lock_exclusive_slow(5).is_none());
    assert!(lock.is_write_locked());
    assert_eq!(lock.reader_count(), 0);
    drop(w);
    assert!(!lock.is_locked());
}

#[test]
fn the_slow_path_takes_a_free_lock_and_frees_it() {
    let lock = MwmrSpinLock::new(4usize);
    let slot = lock.lock_exclusive_slow(1_000).expect("nobody is there");
    assert!(lock.is_write_locked());
    assert!(lock.try_read().is_none());
    drop(slot);
    assert!(!lock.is_locked());
}

#[test]
fn no_round_is_no_try() {
    let lock = MwmrSpinLock::new(4usize);
    assert!(lock.lock_exclusive_slow(0).is_none());
    assert!(!lock.is_locked());
}

#[test]
fn mwmr_readers_see_the_last_write() {
    let lock = MwmrSpinLock::new(String::from("first"));
    assert_eq!(&**read(&lock), "first");
    *write(&lock) = String::from("second");
    write(&lock).push_str(" and third");
    assert_eq!(&**read(&lock), "second and third");
    assert_eq!(lock.take(), "second and third");
}

#[test]
fn mwmr_a_reader_leaves_no_trace() {
    let lock = MwmrSpinLock::new(0usize);
    let a = read(&lock);
    for _ in 0..3 {
        let b = lock.try_read().unwrap();
        assert_eq!(lock.reader_count(), 2);
        drop(b);
        assert_eq!(lock.reader_count(), 1);
    }
    drop(a);
    assert!(!lock.is_locked());
}

#[test]
fn mwmr_dropping_the_lock_drops_the_value() {
    let shared = Arc::new(7usize);
    let lock = MwmrSpinLock::new(Arc::clone(&shared));
    drop(lock);
    assert_eq!(Arc::strong_count(&shared), 1);
}
