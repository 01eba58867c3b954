use zoosync::acquire::{release, Acquire};
use zoosync::pyerr::{Exception, PyFailure};
use zoosync::sync::MutexError;
use zoosync::text::decimal;
use zoosync::zoosync_core::lock::{LockAction, ZooLock};
use zoosync::zoosync_core::shm::{ShmError, ShmSegment};

fn expect_runtime(failure: PyFailure, message: &str) {
    assert_eq!(failure.exception, Exception::RuntimeError);
    assert_eq!(failure.message, message);
}

#[test]
fn a_free_lock_is_acquired_at_once() {
    let acquire = Acquire::begin().advance(Ok(()));
    assert_eq!(acquire, Acquire::Held);
    assert!(acquire.failure("").is_none());
}

#[test]
fn a_busy_lock_is_waited_for() {
    let acquire = Acquire::begin().advance(Err(MutexError::Busy));
    assert_eq!(acquire, Acquire::Blocking);
    assert_eq!(acquire.advance(Ok(())), Acquire::Held);
    let failed = acquire.advance(Err(MutexError::Busy));
    assert_eq!(failed, Acquire::Failed(MutexError::Busy));
    expect_runtime(failed.failure("busy").unwrap(), "Lock failure: busy");
}

#[test]
fn a_dead_owner_is_reported() {
    let waiting = Acquire::begin().advance(Err(MutexError::Busy));
    for stage in [Acquire::begin(), waiting] {
        let failure = stage.advance(Err(MutexError::Recovered)).failure("x").unwrap();
        assert_eq!(failure.exception, Exception::LockRecovered);
        assert_eq!(failure.message, "Lock recovered from dead process");
    }
}

#[test]
fn a_recovered_lock_is_released_and_acquired_again() {
    let recovered = Acquire::begin().advance(Err(MutexError::Recovered));
    assert_eq!(recovered, Acquire::Recovered);
    assert!(release(Ok(()), "").is_ok());
    let again = Acquire::begin().advance(Ok(()));
    assert_eq!(again, Acquire::Held);
    assert!(again.failure("").is_none());
}

#[test]
fn a_lock_that_fails_is_reported() {
    let failed = Acquire::begin().advance(Err(MutexError::Os(1)));
    assert_eq!(failed, Acquire::Failed(MutexError::Os(1)));
    expect_runtime(failed.failure("EPERM").unwrap(), "Lock failure: EPERM");
    expect_runtime(release(Err(MutexError::Os(1)), "EPERM").unwrap_err(), "Unlock failed: EPERM");
    assert!(release(Ok(()), "").is_ok());
}

#[test]
fn an_existing_lock_is_not_initialized() {
    let segment = ShmSegment { ptr: 0x2000, size: 4096 };
    let opening = ZooLock::new("a".to_string());
    assert_eq!(opening.action(), LockAction::Open { size: 4096 });
    assert_eq!(opening.name, "a");
    let opening = opening.segment(Ok(segment));
    assert_eq!(opening.action(), LockAction::Return);
    match opening.result() {
        Ok(Ok(lock)) => {
            assert_eq!(lock.shm, segment);
            assert_eq!(lock.mutex, 0x2000);
        }
        _ => panic!("lock is not ready"),
    }
}

#[test]
fn a_missing_lock_is_made() {
    let segment = ShmSegment { ptr: 0x2000, size: 4096 };
    let opening = ZooLock::new("a".to_string()).segment(Err(ShmError::Nix(2)));
    assert_eq!(opening.action(), LockAction::Create { size: 4096 });
    let opening = opening.segment(Ok(segment));
    assert_eq!(opening.action(), LockAction::InitMutex { address: 0x2000 });
    match opening.initialized(Ok(())).result() {
        Ok(Ok(lock)) => assert_eq!(lock.mutex, 0x2000),
        _ => panic!("lock is not ready"),
    }
}

#[test]
fn a_lock_that_cannot_be_made_is_reported() {
    let opening = ZooLock::new("a".to_string()).segment(Err(ShmError::Nix(2)));
    match opening.segment(Err(ShmError::Nix(13))).result() {
        Ok(Err(failure)) => expect_runtime(
            failure,
            "Failed to create shm: Nix error: EACCES: Permission denied",
        ),
        _ => panic!("attachment has not failed"),
    }
    let segment = ShmSegment { ptr: 0x2000, size: 4096 };
    let opening = ZooLock::new("a".to_string()).segment(Err(ShmError::Nix(2)));
    match opening.segment(Ok(segment)).initialized(Err("no".to_string())).result() {
        Ok(Err(failure)) => expect_runtime(failure, "Failed into init mutex: no"),
        _ => panic!("attachment has not failed"),
    }
}

#[test]
fn numbers_are_decimal() {
    assert_eq!(decimal(0), "0");
    assert_eq!(decimal(10), "10");
    assert_eq!(decimal(1234567890), "1234567890");
    assert_eq!(decimal(usize::MAX), usize::MAX.to_string());
}
