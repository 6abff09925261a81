use flight_core::dispatch::{handle_frame, on_accept, FrameOutcome};
use flight_core::id::{new_id, ClientIdCounter};
use flight_core::message::{DeserializeError, Header, Message, MessagePacket};
use flight_core::pool::{PoolError, WorkerPool, WorkerState};

/// A pool of zero workers is a caller error, refused before anything is built.
#[test]
fn test_pool_zero_workers() {
    assert!(matches!(WorkerPool::new(0), Err(PoolError::ZeroWorkers)));
}

/// A fresh pool: all workers idle, nothing submitted, nothing running.
#[test]
fn test_pool_new() {
    let pool = WorkerPool::new(3).unwrap();
    assert_eq!(pool.size(), 3);
    assert_eq!(pool.submitted_jobs(), 0);
    assert_eq!(pool.pending_jobs(), 0);
    assert_eq!(pool.running_jobs(), 0);
    assert!(!pool.is_shut_down());
    for w in 0..3 {
        assert_eq!(pool.worker_state(w), WorkerState::Idle);
    }
}

/// Submitting K jobs to a pool of size N executes each exactly once: the
/// completion record lists every id once, with no duplicate and none missing.
#[test]
fn test_pool_exactly_once() {
    let mut pool = WorkerPool::new(2).unwrap();
    for k in 0..5 {
        assert_eq!(pool.execute(), Ok(k));
    }
    assert_eq!(pool.pending_jobs(), 5);

    // Drive the two workers until the queue is drained.
    while pool.pending_jobs() > 0 || pool.running_jobs() > 0 {
        for w in 0..2 {
            match pool.worker_state(w) {
                WorkerState::Idle => {
                    pool.claim(w);
                }
                WorkerState::Running { .. } => {
                    pool.complete(w);
                }
                WorkerState::Terminated => unreachable!(),
            }
        }
    }

    let mut done = pool.completed_ids();
    assert_eq!(done.len(), 5);
    done.sort();
    assert_eq!(done, vec![0, 1, 2, 3, 4]);
}

/// The "currently running" gauge never exceeds the pool's size, even with
/// more jobs pending than workers.
#[test]
fn test_pool_bounded_concurrency() {
    let mut pool = WorkerPool::new(2).unwrap();
    for k in 0..4 {
        assert_eq!(pool.execute(), Ok(k));
        assert!(pool.running_jobs() <= pool.size());
    }
    assert_eq!(pool.claim(0), Some(0));
    assert!(pool.running_jobs() <= pool.size());
    assert_eq!(pool.claim(1), Some(1));
    assert_eq!(pool.running_jobs(), 2);
    assert!(pool.running_jobs() <= pool.size());
    assert_eq!(pool.pending_jobs(), 2);
    pool.complete(0);
    assert_eq!(pool.running_jobs(), 1);
}

/// Jobs are claimed in submission order: the queue is FIFO.
#[test]
fn test_pool_fifo() {
    let mut pool = WorkerPool::new(1).unwrap();
    for k in 0..3 {
        assert_eq!(pool.execute(), Ok(k));
    }
    assert_eq!(pool.claim(0), Some(0));
    pool.complete(0);
    assert_eq!(pool.claim(0), Some(1));
    pool.complete(0);
    assert_eq!(pool.claim(0), Some(2));
    pool.complete(0);
    assert_eq!(pool.claim(0), None);
}

/// After shutdown: no new jobs are accepted, every job submitted before is
/// still executed, and every worker exits.
#[test]
fn test_pool_graceful_shutdown() {
    let mut pool = WorkerPool::new(2).unwrap();
    assert_eq!(pool.execute(), Ok(0));
    assert_eq!(pool.execute(), Ok(1));
    pool.shutdown();
    assert!(pool.is_shut_down());
    assert_eq!(pool.execute(), Err(PoolError::ShuttingDown));

    // Workers finish what was already queued...
    assert_eq!(pool.claim(0), Some(0));
    assert_eq!(pool.claim(1), Some(1));
    pool.complete(0);
    pool.complete(1);

    // ...and retire once the queue is observed empty.
    assert_eq!(pool.pending_jobs(), 0);
    pool.retire(0);
    pool.retire(1);
    assert_eq!(pool.worker_state(0), WorkerState::Terminated);
    assert_eq!(pool.worker_state(1), WorkerState::Terminated);
    assert_eq!(pool.completed_ids(), vec![0, 1]);
    assert_eq!(pool.submitted_jobs(), 2);
}

/// Client ids come out of a counter one at a time, in increasing order, and
/// independent counters do not interfere.
#[test]
fn test_new_id() {
    let mut counter = ClientIdCounter::new();
    assert_eq!(new_id(&mut counter), 0);
    assert_eq!(new_id(&mut counter), 1);
    assert_eq!(new_id(&mut counter), 2);

    let mut other = ClientIdCounter::new();
    assert_eq!(new_id(&mut other), 0);
    assert_eq!(new_id(&mut counter), 3);
}

/// A successful accept gets a fresh client id and a submitted job; a failed
/// accept changes nothing and the loop goes on.
#[test]
fn test_on_accept() {
    let mut pool = WorkerPool::new(2).unwrap();
    let mut ids = ClientIdCounter::new();

    assert_eq!(on_accept(&mut pool, &mut ids, true), Some((0, 0)));
    assert_eq!(on_accept(&mut pool, &mut ids, false), None);
    assert_eq!(on_accept(&mut pool, &mut ids, true), Some((1, 1)));
    assert_eq!(pool.pending_jobs(), 2);
    assert_eq!(pool.submitted_jobs(), 2);
}

/// A connection job dispatches well-formed frames, hangs up on Disconnect,
/// and closes on the first malformed frame.
#[test]
fn test_handle_frame() {
    let ping = MessagePacket {
        header: Header {
            timestamp: 9,
            version: 0,
            payload_size: 4,
        },
        payload: Message::Ping,
    };
    assert_eq!(
        handle_frame(&ping.serialize()),
        FrameOutcome::Dispatch { packet: ping }
    );

    let bye = MessagePacket {
        header: Header {
            timestamp: 9,
            version: 0,
            payload_size: 4,
        },
        payload: Message::Disconnect,
    };
    assert_eq!(handle_frame(&bye.serialize()), FrameOutcome::Hangup);

    assert_eq!(
        handle_frame(&[0, 4]),
        FrameOutcome::Malformed {
            error: DeserializeError::MessageTooShort
        }
    );
}
