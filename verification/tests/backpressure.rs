use chttp::buffer::ByteBuffer;
use chttp::buffer::HIGH_WATER_MARK;
use chttp::buffer::LOW_WATER_MARK;
use chttp::manager::Manager;
use chttp::manager::Message;
use chttp::manager::TransferStream;
use chttp::transfer::TransferState;

#[test]
fn small_writes_do_not_pause() {
    let mut b = ByteBuffer::new();
    assert_eq!(b.push(b"hello"), 5);
    assert!(!b.paused);
    let (out, resume) = b.read(5);
    assert_eq!(out, b"hello".to_vec());
    assert!(!resume);
}

#[test]
fn read_is_in_order_across_writes() {
    let mut b = ByteBuffer::new();
    b.push(b"abc");
    b.push(b"def");
    let (out, _) = b.read(2);
    assert_eq!(out, b"ab".to_vec());
    let (out, _) = b.read(10);
    assert_eq!(out, b"cdef".to_vec());
    let (out, _) = b.read(1);
    assert_eq!(out, Vec::<u8>::new());
}

#[test]
fn crossing_high_water_mark_pauses() {
    let mut b = ByteBuffer::new();
    let chunk = vec![0u8; HIGH_WATER_MARK];
    b.push(&chunk);
    assert!(!b.paused, "exactly the mark is not over it");
    b.push(b"x");
    assert!(b.paused, "one byte over the mark pauses");
}

#[test]
fn resume_only_below_low_water_and_only_once() {
    let mut b = ByteBuffer::new();
    b.push(&vec![7u8; HIGH_WATER_MARK + 1]);
    assert!(b.paused);

    // Drain down to exactly the low-water mark: still paused, no resume.
    let (out, resume) = b.read(HIGH_WATER_MARK + 1 - LOW_WATER_MARK);
    assert_eq!(out.len(), HIGH_WATER_MARK + 1 - LOW_WATER_MARK);
    assert!(!resume);
    assert!(b.paused);

    // Drop strictly below the mark: exactly one resume.
    let (_, resume) = b.read(1);
    assert!(resume);
    assert!(!b.paused);

    // Further drains of the same cycle emit nothing more.
    let (_, resume) = b.read(100);
    assert!(!resume);
}

#[test]
fn each_pause_cycle_resumes_once() {
    let mut b = ByteBuffer::new();
    for _ in 0..2 {
        b.push(&vec![1u8; HIGH_WATER_MARK + 1]);
        assert!(b.paused);
        let (_, resume) = b.read(HIGH_WATER_MARK + 1);
        assert!(resume, "draining everything goes below the low-water mark");
        let (_, resume) = b.read(1);
        assert!(!resume);
    }
}

#[test]
fn transfer_stream_emits_unpause_command() {
    let mut mgr = Manager::new();
    let token = mgr.begin();
    let mut state = TransferState::new(Vec::new());
    state.write(&vec![9u8; HIGH_WATER_MARK + 1]);
    assert!(state.buffer.paused);

    let stream = TransferStream::new(token);
    let (out, msg) = stream.read(&mut state, 0);
    assert!(out.is_empty());
    assert!(msg.is_none(), "an empty destination reads nothing");

    let (out, msg) = stream.read(&mut state, HIGH_WATER_MARK + 1);
    assert_eq!(out.len(), HIGH_WATER_MARK + 1);
    assert_eq!(msg, Some(Message::Unpause(token)));

    let (_, msg) = stream.read(&mut state, 1);
    assert!(msg.is_none(), "one unpause per pause/drain cycle");
}
