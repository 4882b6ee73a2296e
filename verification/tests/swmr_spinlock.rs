use spinlocks::swmr_spinlock::SecondWriter;
use spinlocks::swmr_spinlock::SwmrReadGuard;
use spinlocks::swmr_spinlock::SwmrSpinLock;
use spinlocks::swmr_spinlock::SwmrWriteGuard;
use std::sync::Arc;

fn read<T>(lock: &SwmrSpinLock<T>) -> SwmrReadGuard<'_, T> {
    lock.read().expect("nobody keeps the lock for that long")
}

fn write<T>(lock: &SwmrSpinLock<T>) -> SwmrWriteGuard<'_, T> {
    match lock.write() {
        Ok(guard) => guard.expect("nobody keeps the lock for that long"),
        Err(error) => panic!("{}", error.message()),
    }
}

fn try_write<T>(lock: &SwmrSpinLock<T>) -> Option<SwmrWriteGuard<'_, T>> {
    match lock.try_write() {
        Ok(guard) => guard,
        Err(error) => panic!("{}", error.message()),
    }
}

#[test]
fn swmr_spinlock_t0_doc_ghi_co_ban() {
    let lock = SwmrSpinLock::new(1usize);
    assert!(!lock.is_locked());

    {
        let mut g = write(&lock);
        *g += 1;
    }
    assert_eq!(*read(&lock), 2);
    assert!(!lock.is_locked());
}

#[test]
fn swmr_spinlock_t1_nhieu_reader_cung_luc_va_dem_dung() {
    let lock = SwmrSpinLock::new(5usize);
    let a = read(&lock);
    let b = read(&lock);
    assert_eq!(lock.reader_count(), 2);
    assert!(lock.is_locked());
    assert!(!lock.is_write_locked());
    assert_eq!((*a, *b), (5, 5));

    drop(a);
    assert_eq!(lock.reader_count(), 1);
    drop(b);
    assert_eq!(lock.reader_count(), 0);
}

#[test]
fn swmr_spinlock_t2_try_write_that_bai_khi_con_reader_va_khong_ket_co() {
    let lock = SwmrSpinLock::new(0usize);
    let r = read(&lock);
    assert!(try_write(&lock).is_none());
    assert!(!lock.is_write_locked());
    drop(r);

    let mut g = try_write(&lock).expect("hết reader rồi thì phải vào được");
    *g += 1;
    drop(g);
    assert_eq!(*read(&lock), 1);
}

#[test]
fn swmr_spinlock_t7_take_khong_lam_ro_ri_gia_tri_ben_trong() {
    let shared = Arc::new(7usize);
    let lock = SwmrSpinLock::new(Arc::clone(&shared));
    assert_eq!(Arc::strong_count(&shared), 2);

    let inner = lock.take();
    assert_eq!(Arc::strong_count(&shared), 2);
    drop(inner);
    assert_eq!(Arc::strong_count(&shared), 1);
}

#[test]
fn t3_try_read_that_bai_khi_writer_dang_giu() {
    let lock = SwmrSpinLock::new(0usize);
    let w = write(&lock);
    assert!(lock.try_read().is_none());
    assert!(lock.is_write_locked());
    drop(w);
    assert!(lock.try_read().is_some());
}

#[test]
#[should_panic(expected = "single writer")]
fn t4_writer_thu_hai_thi_panic() {
    let lock = SwmrSpinLock::new(0usize);
    let _first = write(&lock);
    let _second = write(&lock);
}

#[test]
#[should_panic(expected = "single writer")]
fn t5_try_write_cung_panic_khi_da_co_writer() {
    let lock = SwmrSpinLock::new(0usize);
    let _first = write(&lock);
    let _second = try_write(&lock);
}

#[test]
fn t6_get_mut_take_default_from() {
    let mut lock = SwmrSpinLock::new(1usize);
    *lock.get_mut() += 1;
    assert_eq!(lock.take(), 2);

    assert_eq!(*read(&SwmrSpinLock::<usize>::default()), 0);
    assert_eq!(*read(&SwmrSpinLock::from(9usize)), 9);
}

#[test]
fn a_second_writer_is_told_so_and_changes_nothing() {
    let lock = SwmrSpinLock::new(0usize);
    let first = write(&lock);
    assert!(matches!(lock.write(), Err(SecondWriter)));
    assert!(matches!(lock.try_write(), Err(SecondWriter)));
    assert!(matches!(lock.lock_exclusive(5), Err(SecondWriter)));
    assert!(lock.is_write_locked());
    assert_eq!(lock.reader_count(), 0);
    drop(first);
    assert!(!lock.is_locked());
    assert_eq!(
        SecondWriter.message(),
        "SwmrSpinLock allows a single writer, but a second one tried to take the lock"
    );
}

// The next tests run the parts of two or three threads one after the other, in every order that one
// thread can take them.

#[test]
fn swmr_spinlock_t0_reader_khong_thay_nua_chung_cua_writer() {
    for writer_first in [true, false] {
        let lock = SwmrSpinLock::new((0usize, 0usize));
        let writer = || {
            let mut g = write(&lock);
            g.0 += 1;
            assert!(lock.try_read().is_none());
            g.1 += 1;
        };
        let reader = || {
            let g = read(&lock);
            assert_eq!(g.0, g.1);
        };
        if writer_first {
            writer();
            reader();
        } else {
            reader();
            writer();
        }
        let g = read(&lock);
        assert_eq!((g.0, g.1), (1, 1));
    }
}

#[test]
fn swmr_spinlock_t1_hai_reader_vao_duoc_cung_luc() {
    let lock = SwmrSpinLock::new(7usize);
    let g1 = read(&lock);
    let g2 = read(&lock);
    assert_eq!(*g1, 7);
    assert_eq!(*g2, 7);
}

#[test]
fn t3_try_write_tra_co_ve_khi_con_reader() {
    for reader_inside in [true, false] {
        let lock = SwmrSpinLock::new(0usize);
        {
            let r = if reader_inside { Some(read(&lock)) } else { None };
            if let Some(mut g) = try_write(&lock) {
                *g += 1;
            }
            if let Some(g) = r {
                assert!(*g == 0 || *g == 1);
            }
        }
        assert!(!lock.is_write_locked());
        assert_eq!(lock.reader_count(), 0);
        *write(&lock) += 10;
        let expected = if reader_inside { 10 } else { 11 };
        assert!(*read(&lock) == 10 || *read(&lock) == 11);
        assert_eq!(*read(&lock), expected);
    }
}

#[test]
fn t4_try_read_khong_chen_vao_luc_writer_giu() {
    for writer_first in [true, false] {
        let lock = SwmrSpinLock::new(0usize);
        let reader = || {
            if let Some(g) = lock.try_read() {
                assert!(*g == 0 || *g == 1);
            }
        };
        if writer_first {
            *write(&lock) += 1;
            reader();
        } else {
            reader();
            *write(&lock) += 1;
        }
        assert_eq!(*read(&lock), 1);
    }
}

#[test]
fn t5_writer_doi_ca_hai_reader_ra_het() {
    let lock = SwmrSpinLock::new(0usize);
    let a = lock.try_read().unwrap();
    let b = lock.try_read().unwrap();
    assert!(*a == 0 || *a == 1);
    assert!(*b == 0 || *b == 1);
    assert!(lock.lock_exclusive(20_000).unwrap().is_none());
    drop(a);
    assert!(lock.lock_exclusive(3).unwrap().is_none());
    drop(b);
    *write(&lock) += 1;
    assert_eq!(*read(&lock), 1);
}

#[test]
fn t2_writer_doi_reader_ra_het_moi_vao() {
    for writer_first in [true, false] {
        let lock = SwmrSpinLock::new(0usize);
        let reader = || {
            let g = read(&lock);
            assert!(try_write(&lock).is_none());
            let seen = *g;
            drop(g);
            assert!(seen == 0 || seen == 1);
        };
        if writer_first {
            *write(&lock) += 1;
            reader();
        } else {
            reader();
            *write(&lock) += 1;
        }
        assert_eq!(*read(&lock), 1);
    }
}

#[test]
fn the_only_writer_gives_up_and_leaves_the_readers_alone() {
    let lock = SwmrSpinLock::new(4usize);
    let a = read(&lock);
    let b = read(&lock);
    assert!(lock.lock_exclusive(5).unwrap().is_none());
    assert!(!lock.is_write_locked());
    assert_eq!(lock.reader_count(), 2);
    let c = lock.try_read().expect("the flag is down again");
    assert_eq!((*a, *b, *c), (4, 4, 4));
}

#[test]
fn the_only_writer_takes_a_free_lock_and_frees_it() {
    let lock = SwmrSpinLock::new(4usize);
    let slot = lock.lock_exclusive(0).unwrap().expect("nobody is there");
    assert!(lock.is_write_locked());
    assert!(lock.try_read().is_none());
    drop(slot);
    assert!(!lock.is_locked());
}

#[test]
fn swmr_readers_see_the_last_write() {
    let lock = SwmrSpinLock::new(String::from("first"));
    assert_eq!(&**read(&lock), "first");
    *write(&lock) = String::from("second");
    write(&lock).push_str(" and third");
    assert_eq!(&**read(&lock), "second and third");
    assert_eq!(lock.take(), "second and third");
}

#[test]
fn swmr_a_reader_leaves_no_trace() {
    let lock = SwmrSpinLock::new(0usize);
    let a = read(&lock);
    for _ in 0..3 {
        let b = lock.try_read().unwrap();
        assert_eq!(lock.reader_count(), 2);
        drop(b);
        assert_eq!(lock.reader_count(), 1);
    }
    drop(a);
    assert!(!lock.is_locked());
}

#[test]
fn swmr_dropping_the_lock_drops_the_value() {
    let shared = Arc::new(7usize);
    let lock = SwmrSpinLock::new(Arc::clone(&shared));
    drop(lock);
    assert_eq!(Arc::strong_count(&shared), 1);
}
