use zoosync::frame::{length_field, length_value};
use zoosync::ring::{read_block_at, write_block_at};
use zoosync::sync::{CondError, MutexError};
use zoosync::zoosync_core::queue::{
    InitAction, InitProgress, InitReply, LockAttempt, LockStep, QueueAction, QueueError,
    QueueReply, QueueStage, RingBuffer, RingBufferHeader, HEADER_SIZE,
};

fn new_header(capacity: u64) -> RingBufferHeader {
    RingBufferHeader { read_pos: 0, write_pos: 0, capacity, init_done: 1 }
}

fn ring() -> RingBuffer {
    match RingBuffer::from_ptr(0x1000, 4096).poll(1) {
        Some(ring) => ring,
        None => panic!("queue is not ready"),
    }
}

/// Sends a message with all outcomes favourable. Tells whether it was sent.
fn put(header: &mut RingBufferHeader, buffer: &mut [u8], data: &[u8]) -> bool {
    let ring = ring();
    let mut op = ring.put_bytes(data);
    op.resume(QueueReply::Mutex(Ok(())));
    op.access(header, buffer);
    if op.action() != (QueueAction::Notify { cond: ring.not_empty }) {
        return false;
    }
    op.resume(QueueReply::Cond(Ok(())));
    op.resume(QueueReply::Mutex(Ok(())));
    assert_eq!(op.action(), QueueAction::Return);
    assert_eq!(op.result(), Some(Ok(())));
    true
}

/// Receives a message with all outcomes favourable, if there is one.
fn get(header: &mut RingBufferHeader, buffer: &[u8]) -> Option<Vec<u8>> {
    let ring = ring();
    let mut op = ring.get_bytes();
    op.resume(QueueReply::Mutex(Ok(())));
    op.access(header, buffer);
    if op.action() != (QueueAction::Notify { cond: ring.not_full }) {
        return None;
    }
    op.resume(QueueReply::Cond(Ok(())));
    op.resume(QueueReply::Mutex(Ok(())));
    match op.result() {
        Ok(Ok(data)) => Some(data),
        _ => panic!("operation did not succeed"),
    }
}

#[test]
fn a_message_lies_in_the_buffer_behind_its_length() {
    let mut header = new_header(12);
    let mut buffer = vec![0xffu8; 12];
    assert!(put(&mut header, &mut buffer, b"abc"));
    assert_eq!(buffer, b"\x03\0\0\0abc\xff\xff\xff\xff\xff".to_vec());
    assert_eq!(header, RingBufferHeader { read_pos: 0, write_pos: 7, capacity: 12, init_done: 1 });
    assert_eq!(get(&mut header, &buffer), Some(b"abc".to_vec()));
    assert_eq!(header, RingBufferHeader { read_pos: 7, write_pos: 7, capacity: 12, init_done: 1 });
}

#[test]
fn messages_wrap_around_the_end() {
    let mut header = RingBufferHeader { read_pos: 22, write_pos: 22, capacity: 12, init_done: 1 };
    let mut buffer = vec![0u8; 12];
    assert!(put(&mut header, &mut buffer, b"wxyz"));
    // Two bytes of the length fit before the end.
    assert_eq!(buffer, b"\0\0wxyz\0\0\0\0\x04\0".to_vec());
    assert_eq!(header.write_pos, 30);
    assert_eq!(get(&mut header, &buffer), Some(b"wxyz".to_vec()));
    assert_eq!(header.read_pos, 30);
}

#[test]
fn messages_come_out_in_order() {
    let mut header = new_header(64);
    let mut buffer = vec![0u8; 64];
    let mut sent: u8 = 0;
    let mut received: u8 = 0;
    for round in 0..200u32 {
        let len = (round % 11) as usize;
        if put(&mut header, &mut buffer, &vec![sent; len + 1]) {
            sent = sent.wrapping_add(1);
        }
        if round % 3 != 0 {
            if let Some(data) = get(&mut header, &buffer) {
                assert!(data.iter().all(|b| *b == received));
                received = received.wrapping_add(1);
            }
        }
    }
    while let Some(data) = get(&mut header, &buffer) {
        assert_eq!(data[0], received);
        received = received.wrapping_add(1);
    }
    assert_eq!(sent, received);
    assert_eq!(header.read_pos, header.write_pos);
}

#[test]
fn an_empty_message_is_a_message() {
    let mut header = new_header(8);
    let mut buffer = vec![0u8; 8];
    assert!(put(&mut header, &mut buffer, b""));
    assert!(put(&mut header, &mut buffer, b""));
    assert!(!put(&mut header, &mut buffer, b""));
    assert_eq!(get(&mut header, &buffer), Some(vec![]));
    assert_eq!(get(&mut header, &buffer), Some(vec![]));
    assert_eq!(get(&mut header, &buffer), None);
}

#[test]
fn a_full_queue_makes_the_sender_wait() {
    let ring = ring();
    let mut header = new_header(10);
    let mut buffer = vec![0u8; 10];
    assert!(put(&mut header, &mut buffer, b"123456"));
    let mut op = ring.put_bytes(b"7");
    assert_eq!(op.action(), QueueAction::Lock { mutex: ring.mutex });
    op.resume(QueueReply::Mutex(Ok(())));
    assert_eq!(
        op.action(),
        QueueAction::Access { header: ring.header, buffer: ring.buffer }
    );
    let before = buffer.clone();
    op.access(&mut header, &mut buffer);
    assert_eq!(buffer, before);
    assert_eq!(
        op.action(),
        QueueAction::Wait { cond: ring.not_full, mutex: ring.mutex, millis: 100 }
    );
    assert_eq!(op.result(), None);
    op.resume(QueueReply::Cond(Ok(())));
    op.access(&mut header, &mut buffer);
    assert_eq!(op.stage, QueueStage::Waiting);
    op.resume(QueueReply::Cond(Ok(())));
    assert_eq!(get(&mut header, &buffer), Some(b"123456".to_vec()));
    op.access(&mut header, &mut buffer);
    assert_eq!(op.action(), QueueAction::Notify { cond: ring.not_empty });
    op.resume(QueueReply::Cond(Ok(())));
    assert_eq!(op.action(), QueueAction::Unlock { mutex: ring.mutex });
    op.resume(QueueReply::Mutex(Ok(())));
    assert_eq!(op.result(), Some(Ok(())));
    assert_eq!(get(&mut header, &buffer), Some(b"7".to_vec()));
}

#[test]
fn an_empty_queue_makes_the_receiver_wait() {
    let ring = ring();
    let mut header = new_header(10);
    let buffer = vec![0u8; 10];
    let mut op = ring.get_bytes();
    op.resume(QueueReply::Mutex(Ok(())));
    op.access(&mut header, &buffer);
    assert_eq!(
        op.action(),
        QueueAction::Wait { cond: ring.not_empty, mutex: ring.mutex, millis: 100 }
    );
    assert_eq!(header, new_header(10));
    let op = match op.result() {
        Err(op) => op,
        Ok(_) => panic!("operation has not ended"),
    };
    assert_eq!(op.stage, QueueStage::Waiting);
}

#[test]
fn a_message_larger_than_the_buffer_never_fits() {
    let mut header = new_header(10);
    let mut buffer = vec![0u8; 10];
    assert!(!put(&mut header, &mut buffer, b"1234567"));
    assert!(put(&mut header, &mut buffer, b"123456"));
    let mut tiny = new_header(3);
    assert!(!put(&mut tiny, &mut [0u8; 3], b""));
}

#[test]
fn a_dead_owner_is_no_failure() {
    let ring = ring();
    assert_eq!(RingBuffer::lock(Ok(())), LockStep::Held);
    assert_eq!(RingBuffer::lock(Err(MutexError::Recovered)), LockStep::Retry);
    let mut op = ring.put_bytes(b"x");
    for _ in 0..5 {
        op.resume(QueueReply::Mutex(Err(MutexError::Recovered)));
        assert_eq!(op.action(), QueueAction::Lock { mutex: ring.mutex });
    }
    op.resume(QueueReply::Mutex(Ok(())));
    assert_eq!(op.stage, QueueStage::Checking);
}

#[test]
fn a_mutex_that_fails_ends_the_operation() {
    let failed = QueueError::Mutex(MutexError::Os(22));
    assert_eq!(RingBuffer::lock(Err(MutexError::Os(22))), LockStep::Failed(failed));
    assert_eq!(
        RingBuffer::lock(Err(MutexError::Busy)),
        LockStep::Failed(QueueError::Mutex(MutexError::Busy))
    );
    let ring = ring();
    let mut op = ring.get_bytes();
    op.resume(QueueReply::Mutex(Err(MutexError::Os(22))));
    assert_eq!(op.action(), QueueAction::Return);
    assert!(matches!(op.result(), Ok(Err(QueueError::Mutex(MutexError::Os(22))))));

    let mut header = new_header(10);
    let mut buffer = vec![0u8; 10];
    let mut op = ring.put_bytes(b"x");
    op.resume(QueueReply::Mutex(Ok(())));
    op.access(&mut header, &mut buffer);
    op.resume(QueueReply::Cond(Ok(())));
    op.resume(QueueReply::Mutex(Err(MutexError::Recovered)));
    assert_eq!(op.result(), Some(Err(QueueError::Mutex(MutexError::Recovered))));
}

#[test]
fn a_condition_variable_that_fails_ends_the_operation() {
    let ring = ring();
    let mut header = new_header(10);
    let mut buffer = vec![0u8; 10];
    let failed = QueueError::Cond(CondError(1));

    let mut op = ring.get_bytes();
    op.resume(QueueReply::Mutex(Ok(())));
    op.access(&mut header, &buffer);
    op.resume(QueueReply::Cond(Err(CondError(1))));
    assert_eq!(op.stage, QueueStage::Failed(failed));

    let mut op = ring.put_bytes(b"x");
    op.resume(QueueReply::Mutex(Ok(())));
    op.access(&mut header, &mut buffer);
    op.resume(QueueReply::Cond(Err(CondError(1))));
    assert_eq!(op.result(), Some(Err(failed)));
    assert_eq!(get(&mut header, &buffer), Some(b"x".to_vec()));
}

#[test]
fn a_region_without_room_for_data_is_too_small() {
    assert_eq!(
        RingBuffer::initialize_at(0x1000, HEADER_SIZE).unwrap_err(),
        QueueError::BufferTooSmall
    );
    assert_eq!(HEADER_SIZE, 416);
    assert!(RingBuffer::initialize_at(0x1000, HEADER_SIZE + 1).is_ok());
}

#[test]
fn a_queue_is_made_part_by_part() {
    let init = RingBuffer::initialize_at(0x1000, 1000).unwrap();
    assert_eq!(init.action(), InitAction::InitMutex { address: 0x1000 });
    let init = match init.advance(InitReply::Mutex(Ok(()))) {
        InitProgress::Pending(init) => init,
        other => panic!("{:?}", other),
    };
    assert_eq!(init.action(), InitAction::InitCond { address: 0x1080 });
    let init = match init.advance(InitReply::Cond(Ok(()))) {
        InitProgress::Pending(init) => init,
        other => panic!("{:?}", other),
    };
    assert_eq!(init.action(), InitAction::InitCond { address: 0x1100 });
    let init = match init.advance(InitReply::Cond(Ok(()))) {
        InitProgress::Pending(init) => init,
        other => panic!("{:?}", other),
    };
    assert_eq!(
        init.action(),
        InitAction::StoreHeader {
            address: 0x1180,
            header: RingBufferHeader { read_pos: 0, write_pos: 0, capacity: 584, init_done: 1 },
        }
    );
    let ring = match init.advance(InitReply::Stored) {
        InitProgress::Ready(ring) => ring,
        other => panic!("{:?}", other),
    };
    assert_eq!(
        ring,
        RingBuffer {
            mutex: 0x1000,
            not_empty: 0x1080,
            not_full: 0x1100,
            header: 0x1000,
            buffer: 0x11a0,
        }
    );
    let opening = RingBuffer::from_ptr(0x1000, 1000);
    assert_eq!(opening.init_done_address(), 0x1198);
    assert_eq!(opening.poll(0), None);
    assert_eq!(opening.poll(1), Some(ring));
}

#[test]
fn a_part_that_cannot_be_made_is_reported() {
    let init = RingBuffer::initialize_at(0x1000, 1000).unwrap();
    assert_eq!(
        init.advance(InitReply::Mutex(Err(MutexError::Os(12)))),
        InitProgress::Failed(QueueError::Mutex(MutexError::Os(12)))
    );
    if let InitProgress::Pending(init) = init.advance(InitReply::Mutex(Ok(()))) {
        assert_eq!(
            init.advance(InitReply::Cond(Err(CondError(11)))),
            InitProgress::Failed(QueueError::Cond(CondError(11)))
        );
    } else {
        panic!("making of the queue ended early");
    }
}

#[test]
fn queue_errors_have_words() {
    assert_eq!(QueueError::BufferTooSmall.message(""), "Buffer too small");
    assert_eq!(
        QueueError::Mutex(MutexError::Busy).message("busy"),
        "Mutex error: busy"
    );
    assert_eq!(QueueError::Cond(CondError(3)).message("why"), "Cond error: why");
}

#[test]
fn lengths_are_little_endian() {
    assert_eq!(length_field(0x0102_0304), [4, 3, 2, 1]);
    assert_eq!(length_field(0x1_0000_0005), [5, 0, 0, 0]);
    assert_eq!(length_value(&[4, 3, 2, 1]), 0x0102_0304);
    assert_eq!(length_value(&[255, 255, 255, 255]), u32::MAX);
}

#[test]
fn blocks_wrap() {
    let mut buffer = [0u8; 5];
    write_block_at(&mut buffer, 13, &[1, 2, 3]);
    assert_eq!(buffer, [3, 0, 0, 1, 2]);
    let mut out = [0u8; 3];
    read_block_at(&buffer, 13, &mut out);
    assert_eq!(out, [1, 2, 3]);
    let mut twice = [0u8; 7];
    read_block_at(&buffer, 13, &mut twice);
    assert_eq!(twice, [1, 2, 3, 0, 0, 1, 2]);
}

#[test]
fn a_write_leaves_pending_bytes_alone() {
    let mut buffer = [0u8; 8];
    write_block_at(&mut buffer, 5, &[1, 2, 3, 4]);
    write_block_at(&mut buffer, 9, &[5, 6, 7, 8]);
    let mut first = [0u8; 4];
    read_block_at(&buffer, 5, &mut first);
    assert_eq!(first, [1, 2, 3, 4]);
    let mut at_once = [0u8; 8];
    write_block_at(&mut at_once, 5, &[1, 2, 3, 4, 5, 6, 7, 8]);
    assert_eq!(buffer, at_once);
}

#[test]
fn a_new_queue_is_empty() {
    let mut header = new_header(584);
    assert_eq!(get(&mut header, &[7u8; 584]), None);
}

#[test]
fn unsound_positions_are_recognized() {
    let buffer = [0u8; 10];
    let sound = RingBufferHeader { read_pos: 3, write_pos: 8, capacity: 10, init_done: 1 };
    assert!(sound.check_put(&buffer, b"a"));
    assert!(sound.check_put(&buffer, b"much too long"));
    assert!(!sound.check_put(&buffer[1..], b"a"));
    let crossed = RingBufferHeader { read_pos: 9, ..sound };
    assert!(!crossed.check_put(&buffer, b"a"));
    assert!(crossed.check_get(&buffer));
    let overfull = RingBufferHeader { write_pos: 14, ..sound };
    assert!(!overfull.check_put(&buffer, b"a"));
    let last = RingBufferHeader { read_pos: u64::MAX - 4, write_pos: u64::MAX - 4, ..sound };
    assert!(last.check_put(&buffer, b""));
    assert!(!last.check_put(&buffer, b"a"));
    assert!(sound.check_get(&buffer));
    assert!(!sound.check_get(&[255u8; 10]));
    assert!(!sound.check_get(&[]));
}

#[test]
fn nothing_is_read_from_nothing() {
    read_block_at(&[], 17, &mut []);
    write_block_at(&mut [], 17, &[]);
}

#[test]
fn two_senders_and_a_receiver_take_turns() {
    let ring = ring();
    let mut header = new_header(10);
    let mut buffer = vec![0u8; 10];
    let locked = QueueReply::Mutex(Ok(()));
    let woken = QueueReply::Cond(Ok(()));

    let mut first = ring.put_bytes(b"one");
    let mut second = ring.put_bytes(b"two");
    let mut receiver = ring.get_bytes();

    first.resume(locked);
    first.access(&mut header, &mut buffer);
    first.resume(woken);
    first.resume(locked);
    assert_eq!(first.result(), Some(Ok(())));

    second.resume(locked);
    second.access(&mut header, &mut buffer);
    assert_eq!(second.stage, QueueStage::Waiting);

    receiver.resume(locked);
    receiver.access(&mut header, &buffer);
    receiver.resume(woken);
    receiver.resume(locked);
    assert!(matches!(receiver.result(), Ok(Ok(data)) if data == b"one"));

    second.resume(woken);
    second.access(&mut header, &mut buffer);
    second.resume(woken);
    second.resume(locked);
    assert_eq!(second.result(), Some(Ok(())));
    assert_eq!(get(&mut header, &buffer), Some(b"two".to_vec()));
}

#[test]
fn a_recovered_mutex_is_given_back_before_the_retry() {
    let recovered = QueueReply::Mutex(Err(MutexError::Recovered));
    assert_eq!(LockAttempt::judge(Err(MutexError::Recovered)), LockAttempt::GiveBack);
    assert_eq!(LockAttempt::given_back(Ok(())), recovered);
    let refused = Err(MutexError::Os(1));
    assert_eq!(LockAttempt::given_back(refused), QueueReply::Mutex(refused));
    for outcome in [Ok(()), Err(MutexError::Busy), Err(MutexError::Os(22))] {
        assert_eq!(
            LockAttempt::judge(outcome),
            LockAttempt::Replied(QueueReply::Mutex(outcome))
        );
    }

    let mut op = ring().get_bytes();
    op.resume(recovered);
    assert_eq!(op.action(), QueueAction::Lock { mutex: ring().mutex });
    op.resume(QueueReply::Mutex(Ok(())));
    assert_eq!(op.stage, QueueStage::Checking);
}

#[test]
fn a_half_written_message_is_not_there() {
    let mut header = new_header(20);
    let mut buffer = vec![0u8; 20];
    assert!(put(&mut header, &mut buffer, b"whole"));
    let untouched = buffer.clone();
    let mut unseen = header;
    assert!(unseen.try_put(&mut buffer, b"torn!"));
    for half in 0..20 {
        let mut left = untouched.clone();
        left[half..].copy_from_slice(&buffer[half..]);
        let mut found = header;
        assert_eq!(get(&mut found, &left), Some(b"whole".to_vec()));
        assert_eq!(get(&mut found, &left), None);
        assert!(put(&mut found, &mut left, b"next"));
        assert_eq!(get(&mut found, &left), Some(b"next".to_vec()));
    }
}

#[test]
fn positions_tell_what_is_held() {
    let mut header = new_header(32);
    let mut buffer = vec![0u8; 32];
    assert!(put(&mut header, &mut buffer, b"four"));
    assert!(put(&mut header, &mut buffer, b""));
    assert_eq!(header.write_pos - header.read_pos, 12);
    assert!(get(&mut header, &buffer).is_some());
    assert_eq!((header.read_pos, header.write_pos), (8, 12));
    assert!(put(&mut header, &mut buffer, b"123456789"));
    assert_eq!(header.write_pos - header.read_pos, 17);
    assert_eq!(header.capacity, 32);
}
