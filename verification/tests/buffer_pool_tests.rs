use spindle::buffer_pool::BufferPool;
use spindle::buffer_pool::PoolStats;

#[test]
fn test_buffer_pool_basic() {
    let mut pool = BufferPool::new(1024, 10, 100);

    let buf1 = pool.acquire();
    assert_eq!(buf1.capacity(), 1024);

    pool.release(buf1);

    let stats = pool.stats();
    assert_eq!(stats.allocated, 1);
    assert_eq!(stats.returned, 1);
}

#[test]
fn test_buffer_pool_reuse() {
    let mut pool = BufferPool::new(1024, 0, 100);

    let buf1 = pool.acquire();
    assert_eq!(pool.stats().created, 1);

    pool.release(buf1);

    let buf2 = pool.acquire();
    assert_eq!(pool.stats().created, 1);
    assert_eq!(pool.stats().allocated, 2);

    pool.release(buf2);
}

#[test]
fn test_max_pool_size() {
    let mut pool = BufferPool::new(1024, 0, 2);

    let buf1 = pool.acquire();
    let buf2 = pool.acquire();
    let buf3 = pool.acquire();

    pool.release(buf1);
    pool.release(buf2);
    pool.release(buf3);

    let stats = pool.stats();
    assert_eq!(stats.available, 2);
}

#[test]
fn acquired_buffers_are_empty() {
    let mut pool = BufferPool::new(64, 1, 4);
    let mut b = pool.acquire();
    b.extend_from_slice(b"dirty");
    pool.release(b);
    let again = pool.acquire();
    assert_eq!(again.len(), 0);
    assert_eq!(pool.stats().created, 0);
}

#[test]
fn foreign_capacity_is_dropped() {
    let mut pool = BufferPool::new(64, 0, 4);
    pool.release(bytes::BytesMut::with_capacity(128));
    let s = pool.stats();
    assert_eq!(s.returned, 1);
    assert_eq!(s.available, 0);
    pool.release_with_capacity(bytes::BytesMut::with_capacity(64), 64);
    assert_eq!(pool.stats().available, 1);
    pool.release_with_capacity(bytes::BytesMut::with_capacity(64), 65);
    assert_eq!(pool.stats().available, 1);
    assert_eq!(pool.stats().returned, 3);
}

#[test]
fn defaults_and_settings() {
    let pool = BufferPool::with_defaults();
    assert_eq!(pool.buffer_capacity(), 8 * 1024);
    assert_eq!(pool.max_pool_size(), 1000);
    assert_eq!(pool.stats().available, 100);
    let d = PoolStats::default();
    assert_eq!((d.allocated, d.returned, d.created, d.available), (0, 0, 0, 0));
}

#[test]
fn initial_buffers_beyond_bound_are_kept() {
    let mut pool = BufferPool::new(16, 5, 2);
    assert_eq!(pool.stats().available, 5);
    let b = pool.acquire();
    assert_eq!(pool.stats().available, 4);
    pool.release(b);
    assert_eq!(pool.stats().available, 4);
}
