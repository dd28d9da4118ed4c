use netweaver::error::ErrorCode;
use netweaver::pool::{BufferHandle, BufferPool, MAX_POOL_BYTES};
use rayon::iter::{IntoParallelRefIterator, ParallelIterator};
use std::sync::Mutex;

#[test]
fn ten_acquires_then_exhausted() {
    let mut pool = BufferPool::new();
    assert_eq!(pool.init(64, 10), ErrorCode::Success);
    let mut handles: Vec<BufferHandle> = Vec::new();
    for n in 0..10 {
        let handle = pool.acquire().unwrap();
        assert_eq!(handle.index, n);
        assert!(!handles.contains(&handle));
        handles.push(handle);
        assert_eq!(pool.acquired_count() + pool.free_count(), 10);
        assert_eq!(pool.acquired_count(), n + 1);
    }
    assert_eq!(pool.acquire(), None);
    assert_eq!(pool.checked_acquire(), Err(ErrorCode::AllocationFailure));
    assert_eq!(pool.free_count(), 0);
    // a released buffer is the next one handed out
    assert_eq!(pool.release(handles[3]), ErrorCode::Success);
    assert_eq!(pool.acquire(), Some(handles[3]));
    assert_eq!(pool.acquire(), None);
}

#[test]
fn double_release_and_foreign_handles_are_refused() {
    let mut pool = BufferPool::new();
    assert_eq!(pool.init(16, 4), ErrorCode::Success);
    let a = pool.acquire().unwrap();
    assert_eq!(pool.release(a), ErrorCode::Success);
    assert_eq!(pool.release(a), ErrorCode::InvalidParameter);
    assert_eq!(pool.free_count(), 4);
    assert_eq!(pool.release(BufferHandle { index: 2 }), ErrorCode::InvalidParameter);
    assert_eq!(pool.release(BufferHandle { index: 4 }), ErrorCode::InvalidParameter);
    assert_eq!(pool.release(BufferHandle { index: usize::MAX }), ErrorCode::InvalidParameter);
    assert_eq!(pool.free_count(), 4);
    assert_eq!(pool.acquired_count(), 0);
}

#[test]
fn destroyed_pool_fails_cleanly() {
    let mut pool = BufferPool::new();
    assert_eq!(pool.acquire(), None);
    assert_eq!(pool.release(BufferHandle { index: 0 }), ErrorCode::InvalidParameter);
    assert_eq!(pool.init(32, 3), ErrorCode::Success);
    let a = pool.acquire().unwrap();
    assert!(pool.is_active());
    pool.destroy();
    assert!(!pool.is_active());
    assert_eq!(pool.acquire(), None);
    assert_eq!(pool.checked_acquire(), Err(ErrorCode::AllocationFailure));
    assert_eq!(pool.release(a), ErrorCode::InvalidParameter);
    assert_eq!(pool.write(a, 0, b"x"), ErrorCode::InvalidParameter);
    assert!(pool.read(a).is_none());
    assert_eq!(pool.pool_size(), 0);
    assert_eq!(pool.buffer_size(), 0);
    assert_eq!(pool.free_count(), 0);
    assert_eq!(pool.acquired_count(), 0);
    pool.destroy();
    // a destroyed pool can be initialised again
    assert_eq!(pool.init(8, 2), ErrorCode::Success);
    assert_eq!(pool.acquire(), Some(BufferHandle { index: 0 }));
}

#[test]
fn init_checks_its_dimensions() {
    let mut pool = BufferPool::new();
    assert_eq!(pool.init(0, 10), ErrorCode::InvalidParameter);
    assert_eq!(pool.init(10, 0), ErrorCode::InvalidParameter);
    assert_eq!(pool.init(MAX_POOL_BYTES, 2), ErrorCode::AllocationFailure);
    assert_eq!(pool.init(usize::MAX, usize::MAX), ErrorCode::AllocationFailure);
    assert!(!pool.is_active());
    assert_eq!(pool.init(1024, 10), ErrorCode::Success);
    assert_eq!(pool.buffer_size(), 1024);
    assert_eq!(pool.pool_size(), 10);
    assert_eq!(pool.free_count(), 10);
    assert_eq!(pool.init(1024, 10), ErrorCode::InvalidParameter);
    assert_eq!(pool.free_count(), 10);
}

#[test]
fn buffers_are_written_and_read_through_handles() {
    let mut pool = BufferPool::new();
    assert_eq!(pool.init(8, 2), ErrorCode::Success);
    let a = pool.acquire().unwrap();
    let b = pool.acquire().unwrap();
    assert_eq!(pool.read(a).unwrap(), &[0u8; 8][..]);
    assert_eq!(pool.write(a, 2, &[1, 2, 3]), ErrorCode::Success);
    assert_eq!(pool.read(a).unwrap(), &[0, 0, 1, 2, 3, 0, 0, 0][..]);
    assert_eq!(pool.read(b).unwrap(), &[0u8; 8][..]);
    assert_eq!(pool.write(a, 6, &[1, 2, 3]), ErrorCode::InvalidParameter);
    assert_eq!(pool.write(a, 9, &[]), ErrorCode::InvalidParameter);
    assert_eq!(pool.write(a, 8, &[]), ErrorCode::Success);
    assert_eq!(pool.write(a, 5, &[9, 9, 9]), ErrorCode::Success);
    assert_eq!(pool.read(a).unwrap(), &[0, 0, 1, 2, 3, 9, 9, 9][..]);
    assert_eq!(pool.release(a), ErrorCode::Success);
    assert!(pool.read(a).is_none());
    assert_eq!(pool.write(a, 0, &[1]), ErrorCode::InvalidParameter);
}

#[test]
fn shared_pool_never_hands_a_buffer_to_two_workers() {
    let pool = Mutex::new(BufferPool::new());
    assert_eq!(pool.lock().unwrap().init(16, 8), ErrorCode::Success);
    let held = Mutex::new(vec![false; 8]);
    let workers: Vec<usize> = (0..16).collect();
    workers.par_iter().for_each(|_| {
        for _ in 0..200 {
            let got = pool.lock().unwrap().acquire();
            if let Some(handle) = got {
                {
                    let mut held = held.lock().unwrap();
                    assert!(!held[handle.index]);
                    held[handle.index] = true;
                }
                {
                    let mut held = held.lock().unwrap();
                    held[handle.index] = false;
                }
                assert_eq!(pool.lock().unwrap().release(handle), ErrorCode::Success);
            }
        }
    });
    assert_eq!(pool.lock().unwrap().free_count(), 8);
    assert_eq!(pool.lock().unwrap().acquired_count(), 0);
}
