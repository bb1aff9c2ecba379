use stream_blocks::block::DataBlock;
use stream_blocks::heap::{CacheResolution, HeapData, TransferError};
use stream_blocks::window::DataBlockCache;

/// A block for the given position whose samples all hold `value`.
fn ready_block(num_channels: usize, frame_len: usize, wanted: usize, value: f32) -> DataBlock<f32> {
    let mut b: DataBlock<f32> = DataBlock::new(num_channels, frame_len, value);
    b.starting_frame_in_file = wanted;
    b.wanted_start_smp = wanted;
    b
}

#[test]
fn heap_new_registers_jump_points() {
    let jumps: Vec<usize> = vec![1024, 8192];
    let h: HeapData<f32> = HeapData::new(2, 512, 4, &jumps, 0.0);
    assert_eq!(h.block_frame_count, 512);
    assert_eq!(h.read_buffer.block.len(), 2);
    assert_eq!(h.prefetch_buffer.len(), 4);
    assert_eq!(h.caches.len(), 2);
    assert_eq!(h.caches[0].wanted_start_smp, 1024);
    assert_eq!(h.caches[1].wanted_start_smp, 8192);
    assert!(h.caches[0].cache.is_none());
    assert!(h.caches[1].cache.is_none());
    let anchors: Vec<usize> = h.prefetch_buffer.iter().map(|e| e.wanted_start_smp).collect();
    assert_eq!(anchors, vec![0, 512, 1024, 1536]);
}

#[test]
fn sequential_rotation_scenario() {
    // Channel count 2, block frame count 512, lookahead depth 4; the worker
    // fills slots 0 through 3 sequentially starting at frame 0.
    let jumps: Vec<usize> = Vec::new();
    let mut h: HeapData<f32> = HeapData::new(2, 512, 4, &jumps, 0.0);
    for slot in 0..4 {
        let b = ready_block(2, 512, slot * 512, slot as f32);
        assert_eq!(h.fill_slot(slot, b), Ok(()));
    }
    // After one rotation the active block covers frames [0, 512) and the
    // window covers [512, 512 + 4 * 512).
    assert_eq!(h.rotate(), Ok(()));
    assert_eq!(h.read_buffer.wanted_start_smp, 0);
    assert_eq!(h.read_buffer.starting_frame_in_file, 0);
    assert_eq!(h.read_buffer.block[0][0], 0.0);
    let anchors: Vec<usize> = h.prefetch_buffer.iter().map(|e| e.wanted_start_smp).collect();
    assert_eq!(anchors, vec![512, 1024, 1536, 2048]);
    assert!(h.prefetch_buffer[3].block.is_none());
    // After four rotations the active block covers [1536, 2048).
    assert_eq!(h.rotate(), Ok(()));
    assert_eq!(h.rotate(), Ok(()));
    assert_eq!(h.rotate(), Ok(()));
    assert_eq!(h.read_buffer.wanted_start_smp, 1536);
    assert_eq!(h.read_buffer.starting_frame_in_file, 1536);
    assert_eq!(h.read_buffer.block[1][511], 3.0);
    let anchors: Vec<usize> = h.prefetch_buffer.iter().map(|e| e.wanted_start_smp).collect();
    assert_eq!(anchors, vec![2048, 2560, 3072, 3584]);
}

#[test]
fn rotation_not_ready_leaves_state_unchanged() {
    let jumps: Vec<usize> = Vec::new();
    let mut h: HeapData<f32> = HeapData::new(1, 128, 3, &jumps, 0.0);
    assert_eq!(h.rotate(), Err(TransferError::NotReady));
    let anchors: Vec<usize> = h.prefetch_buffer.iter().map(|e| e.wanted_start_smp).collect();
    assert_eq!(anchors, vec![0, 128, 256]);
    assert_eq!(h.read_buffer.wanted_start_smp, 0);
}

#[test]
fn fill_slot_rejects_stale_block() {
    let jumps: Vec<usize> = Vec::new();
    let mut h: HeapData<f32> = HeapData::new(1, 128, 3, &jumps, 0.0);
    // Slot 1 serves position 128; a block prepared for position 512 is
    // stale prefetch work and must be discarded, never served.
    let stale = ready_block(1, 128, 512, 1.0);
    assert_eq!(h.fill_slot(1, stale), Err(TransferError::StaleEntry));
    assert!(h.prefetch_buffer[1].block.is_none());
    let fresh = ready_block(1, 128, 128, 1.0);
    assert_eq!(h.fill_slot(1, fresh), Ok(()));
    assert!(h.prefetch_buffer[1].block.is_some());
}

#[test]
fn store_cache_rejects_stale_window() {
    let jumps: Vec<usize> = vec![4096];
    let mut h: HeapData<f32> = HeapData::new(1, 128, 3, &jumps, 0.0);
    let mut w: DataBlockCache<f32> = DataBlockCache::new(1, 128, 3, 0.0);
    w.set_anchor(256, 128);
    assert_eq!(h.store_cache(0, w), Err(TransferError::StaleEntry));
    assert!(h.caches[0].cache.is_none());
    let mut good: DataBlockCache<f32> = DataBlockCache::new(1, 128, 3, 0.0);
    good.set_anchor(4096, 128);
    assert_eq!(h.store_cache(0, good), Ok(()));
    assert!(h.caches[0].cache.is_some());
}

#[test]
fn seek_with_warm_cache_yields_cache_slot_zero() {
    // A seek to a registered jump point whose cache entry is ready must
    // yield an active block equal to the cache's slot 0, with no fresh
    // disk read for that slot.
    let jump = 4096;
    let jumps: Vec<usize> = vec![jump];
    let mut h: HeapData<f32> = HeapData::new(2, 512, 4, &jumps, 0.0);
    let mut w: DataBlockCache<f32> = DataBlockCache::new(2, 512, 4, 0.25);
    w.set_anchor(jump, 512);
    for (i, b) in w.blocks.iter_mut().enumerate() {
        b.starting_frame_in_file = jump + i * 512;
    }
    let cached_samples = w.blocks[0].block.clone();
    assert_eq!(h.store_cache(0, w), Ok(()));
    // The seek: look the jump point up, discard the stale window, mark the
    // head entry as satisfiable from the cache, resolve it, and rotate.
    let ci = h.find_cache(jump).expect("jump point is registered");
    assert_eq!(ci, 0);
    h.reset_window(jump);
    h.set_use_cache(0, ci);
    assert_eq!(h.resolve_slot_from_cache(0), CacheResolution::FilledFromCache);
    assert_eq!(h.rotate(), Ok(()));
    assert_eq!(h.read_buffer.wanted_start_smp, jump);
    assert_eq!(h.read_buffer.starting_frame_in_file, jump);
    assert_eq!(h.read_buffer.block, cached_samples);
}

#[test]
fn use_cache_resolution_requires_matching_anchor() {
    // The referenced cache entry is warm, but it is anchored at 4096 while
    // the entry now serves 512: no stale-cache reuse, fall back to disk.
    let jumps: Vec<usize> = vec![4096];
    let mut h: HeapData<f32> = HeapData::new(1, 512, 4, &jumps, 0.0);
    let mut w: DataBlockCache<f32> = DataBlockCache::new(1, 512, 4, 1.0);
    w.set_anchor(4096, 512);
    assert_eq!(h.store_cache(0, w), Ok(()));
    h.reset_window(512);
    h.set_use_cache(0, 0);
    assert_eq!(h.resolve_slot_from_cache(0), CacheResolution::NeedsDiskRead);
    assert!(h.prefetch_buffer[0].block.is_none());
    assert!(h.prefetch_buffer[0].use_cache.is_none());
}

#[test]
fn dangling_cache_reference_falls_back_to_disk_read() {
    // The referenced cache entry was registered but never filled: recover
    // locally by a normal disk read, never expose the entry as ready.
    let jumps: Vec<usize> = vec![2048];
    let mut h: HeapData<f32> = HeapData::new(1, 512, 4, &jumps, 0.0);
    h.reset_window(2048);
    h.set_use_cache(0, 0);
    assert_eq!(h.resolve_slot_from_cache(0), CacheResolution::NeedsDiskRead);
    assert!(h.prefetch_buffer[0].block.is_none());
    assert!(h.prefetch_buffer[0].use_cache.is_none());
}

#[test]
fn resolve_without_reference_needs_disk_read() {
    let jumps: Vec<usize> = Vec::new();
    let mut h: HeapData<f32> = HeapData::new(1, 512, 4, &jumps, 0.0);
    assert_eq!(h.resolve_slot_from_cache(2), CacheResolution::NeedsDiskRead);
    assert!(h.prefetch_buffer[2].block.is_none());
}

#[test]
fn find_cache_reports_first_matching_anchor() {
    let jumps: Vec<usize> = vec![100, 200, 200];
    let h: HeapData<f32> = HeapData::new(1, 10, 2, &jumps, 0.0);
    assert_eq!(h.find_cache(100), Some(0));
    assert_eq!(h.find_cache(200), Some(1));
    assert_eq!(h.find_cache(300), None);
}

#[test]
fn read_active_exposes_promoted_block() {
    let jumps: Vec<usize> = Vec::new();
    let mut h: HeapData<f32> = HeapData::new(1, 4, 2, &jumps, 0.0);
    let mut b = ready_block(1, 4, 0, 0.0);
    for (i, s) in b.block[0].iter_mut().enumerate() {
        *s = (i + 1) as f32;
    }
    assert_eq!(h.fill_slot(0, b), Ok(()));
    assert_eq!(h.rotate(), Ok(()));
    let view = h.read_active(4);
    assert_eq!(view.num_channels(), 1);
    assert_eq!(view.read_channel(0), &[1.0, 2.0, 3.0, 4.0]);
    // A shorter trailing block at end of stream: only `len` frames are valid.
    let eof_view = h.read_active(2);
    assert_eq!(eof_view.read_channel(0), &[1.0, 2.0]);
}

#[test]
fn reset_window_discards_and_reanchors() {
    let jumps: Vec<usize> = Vec::new();
    let mut h: HeapData<f32> = HeapData::new(1, 256, 3, &jumps, 0.0);
    assert_eq!(h.fill_slot(0, ready_block(1, 256, 0, 1.0)), Ok(()));
    assert_eq!(h.fill_slot(1, ready_block(1, 256, 256, 2.0)), Ok(()));
    h.reset_window(10_000);
    let anchors: Vec<usize> = h.prefetch_buffer.iter().map(|e| e.wanted_start_smp).collect();
    assert_eq!(anchors, vec![10_000, 10_256, 10_512]);
    for e in &h.prefetch_buffer {
        assert!(e.block.is_none());
        assert!(e.use_cache.is_none());
    }
}
