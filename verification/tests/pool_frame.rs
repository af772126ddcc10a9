use render_core::buffer_pool::GenericBufferPool;
use render_core::buffers::BufferUsage;
use render_core::frame_allocator::{FrameBufferAllocator, FrameError};

#[test]
fn size_class_rounds_up_to_powers_of_two() {
    assert_eq!(GenericBufferPool::size_class(1), 1);
    assert_eq!(GenericBufferPool::size_class(2), 2);
    assert_eq!(GenericBufferPool::size_class(3), 4);
    assert_eq!(GenericBufferPool::size_class(64), 64);
    assert_eq!(GenericBufferPool::size_class(65), 128);
    assert_eq!(GenericBufferPool::size_class(1000), 1024);
}

#[test]
fn checkout_allocates_canonical_sizes() {
    let mut pool = GenericBufferPool::new();
    let b = pool.checkout(BufferUsage::Vertex, 100);
    assert_eq!(b.size(), 128);
    assert_eq!(b.usage(), BufferUsage::Vertex);
    assert_eq!(b.id(), 0);
    assert_eq!(pool.allocation_count(), 1);
}

#[test]
fn pool_round_trip_reuses_released_buffer() {
    let mut pool = GenericBufferPool::new();
    let b = pool.checkout(BufferUsage::Vertex, 100);
    let released_id = b.id();
    pool.release(b);
    assert_eq!(pool.idle_count(), 1);

    // same size: the released buffer comes back, nothing is allocated
    let b2 = pool.checkout(BufferUsage::Vertex, 100);
    assert_eq!(b2.id(), released_id);
    assert_eq!(pool.allocation_count(), 1);
    pool.release(b2);

    // smaller size: still the released buffer, still no new allocation
    let b3 = pool.checkout(BufferUsage::Vertex, 16);
    assert_eq!(b3.id(), released_id);
    assert_eq!(pool.allocation_count(), 1);
}

#[test]
fn pool_prefers_most_recently_released() {
    let mut pool = GenericBufferPool::new();
    let a = pool.checkout(BufferUsage::Vertex, 64);
    let b = pool.checkout(BufferUsage::Vertex, 64);
    let a_id = a.id();
    let b_id = b.id();
    assert_ne!(a_id, b_id);
    pool.release(a);
    pool.release(b);
    let first = pool.checkout(BufferUsage::Vertex, 64);
    assert_eq!(first.id(), b_id);
    let second = pool.checkout(BufferUsage::Vertex, 64);
    assert_eq!(second.id(), a_id);
}

#[test]
fn pool_does_not_reuse_other_usages() {
    let mut pool = GenericBufferPool::new();
    let b = pool.checkout(BufferUsage::Uniform, 64);
    pool.release(b);
    let v = pool.checkout(BufferUsage::Vertex, 64);
    assert_eq!(v.id(), 1);
    assert_eq!(pool.allocation_count(), 2);
}

#[test]
fn staging_alloc_slice_write_commit() {
    let mut fba = FrameBufferAllocator::new(GenericBufferPool::new());
    let hb = fba.alloc_staging_buffer(8);
    assert_eq!(hb.size(), 8);
    let window = fba.slice(&hb, 2, 4).unwrap();
    assert_eq!(window.offset(), 2);
    assert_eq!(window.size(), 4);
    fba.copy_from_slice(&window, &vec![9u8, 8, 7, 6]).unwrap();
    let committed = fba.commit_staging_buffer(hb).unwrap();
    assert_eq!(committed.offset(), 0);
    assert_eq!(committed.size(), 8);
    let contents = committed.buffer().contents();
    assert_eq!(&contents[0..8], &[0u8, 0, 9, 8, 7, 6, 0, 0]);
}

#[test]
fn slice_out_of_range_fails_fast() {
    let mut fba = FrameBufferAllocator::new(GenericBufferPool::new());
    let hb = fba.alloc_staging_buffer(8);
    let err = fba.slice(&hb, 6, 4).unwrap_err();
    assert_eq!(err, FrameError::OutOfBounds);
    let err = fba.slice(&hb, 9, 0).unwrap_err();
    assert_eq!(err, FrameError::OutOfBounds);
}

#[test]
fn copy_with_wrong_size_fails_fast() {
    let mut fba = FrameBufferAllocator::new(GenericBufferPool::new());
    let hb = fba.alloc_staging_buffer(8);
    let window = fba.slice(&hb, 0, 4).unwrap();
    let err = fba.copy_from_slice(&window, &vec![1u8, 2, 3]).unwrap_err();
    assert_eq!(err, FrameError::SizeMismatch);
}

#[test]
fn frame_isolation_invalidates_stale_handles() {
    let mut fba = FrameBufferAllocator::new(GenericBufferPool::new());
    let hb = fba.alloc_staging_buffer(8);
    let window = fba.slice(&hb, 0, 4).unwrap();
    fba.reset();
    assert_eq!(fba.generation(), 1);
    let err = fba.slice(&hb, 0, 4).unwrap_err();
    assert_eq!(err, FrameError::StaleHandle);
    let err = fba.copy_from_slice(&window, &vec![1u8, 2, 3, 4]).unwrap_err();
    assert_eq!(err, FrameError::StaleHandle);
    let err = fba.commit_staging_buffer(hb).unwrap_err();
    assert_eq!(err, FrameError::StaleHandle);
}

#[test]
fn reset_returns_committed_buffers_to_pool() {
    let mut fba = FrameBufferAllocator::new(GenericBufferPool::new());
    let hb = fba.alloc_staging_buffer(16);
    let committed = fba.commit_staging_buffer(hb).unwrap();
    let committed_id = committed.buffer().id();
    assert_eq!(fba.pool().idle_count(), 0);
    fba.reset();
    assert_eq!(fba.pool().idle_count(), 1);
    // the next frame's commit of the same size reuses the very buffer
    let hb2 = fba.alloc_staging_buffer(16);
    let committed2 = fba.commit_staging_buffer(hb2).unwrap();
    assert_eq!(committed2.buffer().id(), committed_id);
    assert_eq!(fba.pool().allocation_count(), 1);
}
