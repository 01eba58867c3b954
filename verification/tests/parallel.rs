use zoosync::pyerr::{Exception, PyFailure};
use zoosync::zooparallel_core::lock::{LockAction, ZooLock};
use zoosync::zooparallel_core::module::platform_warning;
use zoosync::zooparallel_core::queue::{QueueAction, RecvView, ZooQueue};
use zoosync::zooparallel_core::shm::{ShmError, ShmSegment};
use zoosync::zooparallel_core::view::{BufferInfo, ZooView};

fn expect_runtime(failure: PyFailure, message: &str) {
    assert_eq!(failure.exception, Exception::RuntimeError);
    assert_eq!(failure.message, message);
}

#[test]
fn the_other_lock_differs_in_its_words() {
    let segment = ShmSegment { ptr: 0x2000, size: 4096 };
    let opening = ZooLock::new("a".to_string());
    assert_eq!(opening.action(), LockAction::Open { size: 4096 });
    let opening = opening.segment(Err(ShmError::Nix(2)));
    match opening.segment(Ok(segment)).initialized(Err("no".to_string())).result() {
        Ok(Err(failure)) => expect_runtime(failure, "Failed to init mutex: no"),
        _ => panic!("attachment has not failed"),
    }
    expect_runtime(
        ZooLock::unlink_failure(ShmError::Nix(2)),
        "Unlink failed: Nix error: ENOENT: No such file or directory",
    );
}

#[test]
fn a_queue_has_its_size_in_megabytes() {
    let opening = ZooQueue::new("video_frames".to_string(), 10, 4096);
    assert_eq!(
        opening.action(),
        QueueAction::OpenMirrored { header_size: 4096, data_size: 10485760 }
    );
    let opening = opening.segment(Err(ShmError::Nix(2)));
    assert_eq!(
        opening.action(),
        QueueAction::CreateMirrored { header_size: 4096, data_size: 10485760 }
    );
    let segment = ShmSegment { ptr: 0x3000, size: 20975616 };
    let opening = opening.segment(Ok(segment));
    assert_eq!(
        opening.action(),
        QueueAction::InitializeBuffer { ptr: 0x3000, size: 20975616 }
    );
    let opening = opening.initialized(Ok(()));
    assert_eq!(
        opening.action(),
        QueueAction::OpenBuffer { ptr: 0x3000, size: 20975616 }
    );
    let opening = match opening.failure() {
        Err(opening) => opening,
        Ok(_) => panic!("attachment has failed"),
    };
    match opening.buffer_opened(Ok(())) {
        Ok(queue) => assert_eq!(queue.shm, segment),
        Err(_) => panic!("queue is not ready"),
    }
}

#[test]
fn a_queue_that_cannot_be_had_is_reported() {
    let segment = ShmSegment { ptr: 0x3000, size: 100 };
    let start = || ZooQueue::new("q".to_string(), 1, 4096);
    match start().segment(Ok(segment)).buffer_opened(Err("why".to_string())) {
        Err(failure) => expect_runtime(failure, "Failed to open buffer: why"),
        Ok(_) => panic!("attachment has not failed"),
    }
    let missing = start().segment(Err(ShmError::Nix(2)));
    let refused = missing.segment(Err(ShmError::AlignmentError(1, 4096)));
    assert_eq!(refused.action(), QueueAction::Return);
    match refused.failure() {
        Ok(failure) => expect_runtime(
            failure,
            "Failed to create mirrored shm: Size must be page-aligned (got 1, page size 4096)",
        ),
        Err(_) => panic!("attachment has not failed"),
    }
    let made = start().segment(Err(ShmError::Nix(2))).segment(Ok(segment));
    match made.initialized(Err("why".to_string())).failure() {
        Ok(failure) => expect_runtime(failure, "Failed init buffer: why"),
        Err(_) => panic!("attachment has not failed"),
    }
    expect_runtime(ZooQueue::put_failure("why"), "Queue put error: why");
    expect_runtime(ZooQueue::get_failure("why"), "Queue get error: why");
    expect_runtime(ZooQueue::commit_failure("why"), "Queue commit_read error: why");
    expect_runtime(
        ZooQueue::unlink_failure(ShmError::Nix(2)),
        "Unlink failed: Nix error: ENOENT: No such file or directory",
    );
}

#[test]
fn a_message_is_viewed_after_the_mutex_is_released() {
    let recv = ZooQueue::recv_view().viewed(Ok((0x5000, 3, 77)));
    match recv.released(Ok(())) {
        RecvView::Ready(view) => {
            assert_eq!(view, ZooView { ptr: 0x5000, len: 3, next_pos: 77, committed: false })
        }
        _ => panic!("no view"),
    }
    match ZooQueue::recv_view().viewed(Err("why".to_string())) {
        RecvView::Failed(failure) => expect_runtime(failure, "Queue get_view error: why"),
        _ => panic!("reception has not failed"),
    }
    match ZooQueue::recv_view().viewed(Ok((1, 2, 3))).released(Err("why".to_string())) {
        RecvView::Failed(failure) => expect_runtime(failure, "Failed to release lock: why"),
        _ => panic!("reception has not failed"),
    }
}

#[test]
fn a_view_commits_once() {
    let mut view = ZooView { ptr: 0x5000, len: 3, next_pos: 77, committed: false };
    assert_eq!(view.exit(), Some(77));
    assert_eq!(view.exit(), None);
    assert_eq!(view.exit(), None);
    assert_eq!(view, ZooView { ptr: 0x5000, len: 3, next_pos: 77, committed: true });
}

#[test]
fn a_view_is_for_reading_only() {
    let view = ZooView { ptr: 0x5000, len: 3, next_pos: 77, committed: false };
    assert_eq!(
        view.getbuffer(false).unwrap(),
        BufferInfo { ptr: 0x5000, len: 3, readonly: true }
    );
    expect_runtime(view.getbuffer(true).unwrap_err(), "View is null");
    assert!(ZooView::buffer_filled(0).is_ok());
    expect_runtime(ZooView::buffer_filled(-1).unwrap_err(), "PyBuffer_FillInfo failed");
}

#[test]
fn other_platforms_are_warned_of() {
    assert_eq!(platform_warning(true), None);
    assert_eq!(
        platform_warning(false),
        Some("Running on non-Linux platform. Crash recovery (Robust Mutex) is NOT supported. Deadlocked processes may require manual cleanup.")
    );
}
