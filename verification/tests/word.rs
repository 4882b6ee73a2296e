use spinlocks::backoff::Backoff;
use spinlocks::bits::admit_reader;
use spinlocks::bits::count_readers;
use spinlocks::bits::has_writer;
use spinlocks::bits::is_drained;
use spinlocks::bits::judge;
use spinlocks::bits::raise_flag;
use spinlocks::bits::Verdict;
use spinlocks::bits::READER;
use spinlocks::bits::WRITER;
use spinlocks::cell::ValueCell;
use spinlocks::mwmr_spinlock::MwmrSpinLock;
use spinlocks::swmr_spinlock::SwmrSpinLock;

#[test]
fn the_flag_is_bit_zero() {
    assert_eq!((WRITER, READER), (1, 2));
    assert!(!has_writer(0));
    assert!(has_writer(1));
    assert!(!has_writer(6));
    assert!(has_writer(7));
    assert!(has_writer(usize::MAX));
    assert_eq!(raise_flag(0), 1);
    assert_eq!(raise_flag(6), 7);
    assert_eq!(raise_flag(7), 7);
}

#[test]
fn the_rest_counts_readers() {
    assert_eq!(count_readers(0), 0);
    assert_eq!(count_readers(1), 0);
    assert_eq!(count_readers(6), 3);
    assert_eq!(count_readers(7), 3);
    assert_eq!(count_readers(usize::MAX), usize::MAX / 2);
}

#[test]
fn a_reader_is_admitted_unless_flagged_or_full() {
    assert_eq!(admit_reader(0), Some(2));
    assert_eq!(admit_reader(4), Some(6));
    assert_eq!(admit_reader(1), None);
    assert_eq!(admit_reader(5), None);
    assert_eq!(admit_reader(usize::MAX - 3), Some(usize::MAX - 1));
    assert_eq!(admit_reader(usize::MAX - 1), None);
    assert_eq!(admit_reader(usize::MAX), None);
}

#[test]
fn a_writer_is_judged_by_what_it_found() {
    assert_eq!(judge(0), Verdict::Inside);
    assert_eq!(judge(2), Verdict::ReadersInside);
    assert_eq!(judge(1), Verdict::SecondWriter);
    assert_eq!(judge(3), Verdict::SecondWriter);
}

#[test]
fn a_word_is_drained_when_the_bare_flag_is_left() {
    assert!(is_drained(1));
    assert!(!is_drained(0));
    assert!(!is_drained(2));
    assert!(!is_drained(3));
}

#[test]
fn readers_count_on_the_word() {
    let lock = MwmrSpinLock::new(0u8);
    let a = lock.try_read().unwrap();
    assert_eq!(lock.reader_count(), 1);
    let b = lock.cas_read(1_000).unwrap();
    assert_eq!(lock.reader_count(), 2);
    assert!(lock.is_locked());
    assert!(!lock.is_write_locked());
    drop(a);
    assert_eq!(lock.reader_count(), 1);
    drop(b);
    assert_eq!(lock.reader_count(), 0);
    assert!(!lock.is_locked());
}

#[test]
fn the_flag_keeps_new_readers_out_and_stays() {
    let mwmr = MwmrSpinLock::new(0u8);
    let w = mwmr.lock_exclusive_slow(1_000).unwrap();
    for _ in 0..3 {
        assert!(mwmr.try_read().is_none());
        assert!(mwmr.cas_read(100).is_none());
        assert!(mwmr.try_write().is_none());
        assert!(mwmr.is_write_locked());
        assert_eq!(mwmr.reader_count(), 0);
    }
    drop(w);
    assert!(mwmr.cas_read(1_000).is_some());

    let swmr = SwmrSpinLock::new(0u8);
    let w = swmr.lock_exclusive(0).unwrap().unwrap();
    for _ in 0..3 {
        assert!(swmr.try_read().is_none());
        assert!(swmr.cas_read(100).is_none());
        assert!(swmr.try_write().is_err());
        assert!(swmr.is_write_locked());
        assert_eq!(swmr.reader_count(), 0);
    }
    drop(w);
    assert!(swmr.cas_read(1_000).is_some());
}

#[test]
fn a_failed_try_leaves_flag_and_count_as_they_were() {
    let mwmr = MwmrSpinLock::new(0u8);
    let swmr = SwmrSpinLock::new(0u8);
    let (a, b) = (mwmr.try_read().unwrap(), mwmr.try_read().unwrap());
    let (c, d) = (swmr.try_read().unwrap(), swmr.try_read().unwrap());
    for _ in 0..3 {
        assert!(mwmr.try_write().is_none());
        assert!(matches!(swmr.try_write(), Ok(None)));
        assert_eq!((mwmr.reader_count(), swmr.reader_count()), (2, 2));
        assert!(!mwmr.is_write_locked() && !swmr.is_write_locked());
    }
    drop((a, b, c, d));
    assert!(!mwmr.is_locked() && !swmr.is_locked());
}

#[test]
fn no_round_is_no_try_for_readers() {
    let mwmr = MwmrSpinLock::new(0u8);
    let swmr = SwmrSpinLock::new(0u8);
    assert!(mwmr.cas_read(0).is_none());
    assert!(swmr.cas_read(0).is_none());
    assert!(!mwmr.is_locked() && !swmr.is_locked());
}

#[test]
fn a_cell_gives_out_what_it_was_set_to() {
    assert_eq!(ValueCell::new(3u8).into_inner(), 3);
    let mut cell = ValueCell::new(3u8);
    assert_eq!(*cell.get_mut(), 3);
    *cell.get_mut() = 9;
    assert_eq!(*cell.get_mut(), 9);
    assert_eq!(cell.into_inner(), 9);
}

#[test]
fn taking_the_value_undoes_making_the_lock() {
    assert_eq!(MwmrSpinLock::new(7u8).take(), 7);
    assert_eq!(SwmrSpinLock::new(7u8).take(), 7);
}

#[test]
fn a_lock_holds_what_an_opened_reference_was_left_at() {
    let mut mwmr = MwmrSpinLock::new(1u8);
    assert_eq!(*mwmr.get_mut(), 1);
    *mwmr.get_mut() = 5;
    assert_eq!(*mwmr.try_read().unwrap(), 5);
    assert_eq!(*mwmr.try_write().unwrap(), 5);
    assert!(!mwmr.is_locked());
    assert_eq!(mwmr.take(), 5);

    let mut swmr = SwmrSpinLock::new(1u8);
    assert_eq!(*swmr.get_mut(), 1);
    *swmr.get_mut() = 5;
    assert_eq!(*swmr.try_read().unwrap(), 5);
    assert_eq!(*swmr.try_write().unwrap().unwrap(), 5);
    assert!(!swmr.is_locked());
    assert_eq!(swmr.take(), 5);
}

#[test]
fn opening_a_lock_keeps_the_flag_and_the_count() {
    let mut mwmr = MwmrSpinLock::new(1u8);
    std::mem::forget(mwmr.try_read().unwrap());
    *mwmr.get_mut() = 2;
    assert_eq!(mwmr.reader_count(), 1);
    assert!(!mwmr.is_write_locked());
    assert_eq!(mwmr.take(), 2);

    let mut swmr = SwmrSpinLock::new(1u8);
    std::mem::forget(swmr.try_write().unwrap().unwrap());
    *swmr.get_mut() = 2;
    assert_eq!(swmr.reader_count(), 0);
    assert!(swmr.is_write_locked());
    assert_eq!(swmr.take(), 2);
}

#[test]
fn a_writer_finds_what_the_writer_before_it_left() {
    let lock = MwmrSpinLock::new(0u32);
    for n in 0..5u32 {
        let mut guard = lock.try_write().unwrap();
        assert_eq!(*guard, n);
        *guard += 1;
        assert_eq!(*guard, n + 1);
    }
    assert_eq!(lock.take(), 5);
}

#[test]
fn a_writer_gets_in_when_the_last_reader_has_left() {
    let mwmr = MwmrSpinLock::new(0u8);
    let (a, b) = (mwmr.try_read().unwrap(), mwmr.try_read().unwrap());
    assert!(mwmr.lock_exclusive_slow(20).is_none());
    drop(a);
    assert!(mwmr.lock_exclusive_slow(20).is_none());
    drop(b);
    assert!(mwmr.lock_exclusive_slow(1_000).is_some());

    let swmr = SwmrSpinLock::new(0u8);
    let (a, b) = (swmr.try_read().unwrap(), swmr.try_read().unwrap());
    assert!(matches!(swmr.lock_exclusive(20), Ok(None)));
    drop(a);
    assert!(matches!(swmr.lock_exclusive(20), Ok(None)));
    drop(b);
    assert!(matches!(swmr.lock_exclusive(0), Ok(Some(_))));
}

#[test]
fn whoever_has_a_place_gets_its_guard() {
    let mwmr = MwmrSpinLock::new(0usize);
    let swmr = SwmrSpinLock::new(0usize);
    for round in 0..50 {
        let many: Vec<_> = (0..20).map(|_| mwmr.try_read().unwrap()).collect();
        assert!(many.iter().all(|guard| **guard == round));
        assert_eq!(mwmr.reader_count(), 20);
        drop(many);
        *mwmr.write().unwrap() += 1;

        let many: Vec<_> = (0..20).map(|_| swmr.try_read().unwrap()).collect();
        assert!(many.iter().all(|guard| **guard == round));
        assert_eq!(swmr.reader_count(), 20);
        drop(many);
        *swmr.write().unwrap().unwrap() += 1;
    }
    assert_eq!((mwmr.take(), swmr.take()), (50, 50));
}

#[test]
fn a_backoff_completes_and_starts_over() {
    let mut backoff = Backoff::new();
    for _ in 0..10 {
        assert!(!backoff.is_completed());
        backoff.snooze();
    }
    assert!(backoff.is_completed());
    backoff.snooze();
    assert!(backoff.is_completed());
    backoff.reset();
    assert!(!backoff.is_completed());
}
