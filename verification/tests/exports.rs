use hello_server::{ThreadPool, ThreadPoolError};

#[test]
fn the_pool_and_its_error_are_at_the_root() {
    let refused: Result<ThreadPool<u8, u8>, ThreadPoolError> = ThreadPool::new(0);
    assert!(matches!(refused, Err(ThreadPoolError::ThreadCreationError(_))));
    let mut pool: ThreadPool<u8, u8> = ThreadPool::new(1).unwrap();
    pool.register(Ok(1));
    assert!(pool.accepts_jobs());
    pool.execute(42);
    assert_eq!(pool.pending(), 1);
}
