use pine_audio::pool::WorkerPool;
use pine_audio::AudioError;

#[test]
fn acquire_hands_out_the_lowest_free_slot() {
    let mut pool = WorkerPool::new(3);
    assert_eq!(pool.capacity(), 3);
    assert_eq!(pool.acquire().unwrap(), 0);
    assert_eq!(pool.acquire().unwrap(), 1);
    assert_eq!(pool.acquire().unwrap(), 2);
    assert_eq!(pool.acquire().unwrap_err(), AudioError::PoolExhausted);
}

#[test]
fn released_slot_serves_the_next_intent() {
    let mut pool = WorkerPool::new(2);
    assert_eq!(pool.acquire().unwrap(), 0);
    assert_eq!(pool.acquire().unwrap(), 1);
    pool.release(0);
    assert_eq!(pool.acquire().unwrap(), 0);
    assert_eq!(pool.acquire().unwrap_err(), AudioError::PoolExhausted);
}

#[test]
fn exhaustion_is_an_error_not_a_wait() {
    let mut pool = WorkerPool::new(0);
    assert_eq!(pool.acquire().unwrap_err(), AudioError::PoolExhausted);
}
