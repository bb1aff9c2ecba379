use stream_blocks::block::DataBlock;
use stream_blocks::read_view::ReadData;
use stream_blocks::window::DataBlockCache;

#[test]
fn block_channels_have_configured_frame_length() {
    let b: DataBlock<f32> = DataBlock::new(3, 64, 0.0);
    assert_eq!(b.block.len(), 3);
    for chan in &b.block {
        assert_eq!(chan.len(), 64);
        for s in chan {
            assert_eq!(*s, 0.0);
        }
    }
    assert_eq!(b.starting_frame_in_file, 0);
    assert_eq!(b.wanted_start_smp, 0);
}

#[test]
fn cache_window_blocks_have_configured_frame_length() {
    let w: DataBlockCache<f32> = DataBlockCache::new(2, 32, 4, 0.0);
    assert_eq!(w.blocks.len(), 4);
    for b in &w.blocks {
        assert_eq!(b.block.len(), 2);
        for chan in &b.block {
            assert_eq!(chan.len(), 32);
        }
        assert_eq!(b.wanted_start_smp, 0);
        assert_eq!(b.starting_frame_in_file, 0);
    }
    assert_eq!(w.wanted_start_smp, 0);
}

#[test]
fn set_anchor_ladders_block_anchors() {
    let mut w: DataBlockCache<f32> = DataBlockCache::new(1, 10, 4, 0.0);
    w.set_anchor(100, 10);
    assert_eq!(w.wanted_start_smp, 100);
    let anchors: Vec<usize> = w.blocks.iter().map(|b| b.wanted_start_smp).collect();
    assert_eq!(anchors, vec![100, 110, 120, 130]);
}

#[test]
fn duplicate_preserves_samples_and_metadata() {
    let mut b: DataBlock<f32> = DataBlock::new(2, 4, 0.0);
    for (c, chan) in b.block.iter_mut().enumerate() {
        for (i, s) in chan.iter_mut().enumerate() {
            *s = (c * 10 + i) as f32;
        }
    }
    b.starting_frame_in_file = 7;
    b.wanted_start_smp = 9;
    let d = b.duplicate();
    assert_eq!(d.block, b.block);
    assert_eq!(d.starting_frame_in_file, 7);
    assert_eq!(d.wanted_start_smp, 9);
}

#[test]
fn read_view_exposes_full_block() {
    let mut b: DataBlock<f32> = DataBlock::new(1, 8, 0.0);
    for (i, s) in b.block[0].iter_mut().enumerate() {
        *s = i as f32;
    }
    let view = ReadData::new(&b, 8);
    assert_eq!(view.num_channels(), 1);
    assert_eq!(view.buffer_len(), 8);
    let samples = view.read_channel(0);
    assert_eq!(samples, &[0.0, 1.0, 2.0, 3.0, 4.0, 5.0, 6.0, 7.0]);
}

#[test]
fn read_view_truncated_at_end_of_file() {
    // An end-of-stream block holds fewer valid frames than the fixed frame
    // length: the view exposes exactly `len` samples, not the full buffer.
    let mut b: DataBlock<f32> = DataBlock::new(2, 8, 0.0);
    for chan in b.block.iter_mut() {
        for (i, s) in chan.iter_mut().enumerate() {
            *s = (i + 1) as f32;
        }
    }
    let view = ReadData::new(&b, 3);
    assert_eq!(view.buffer_len(), 3);
    assert_eq!(view.read_channel(0), &[1.0, 2.0, 3.0]);
    assert_eq!(view.read_channel(1), &[1.0, 2.0, 3.0]);
    assert_eq!(view.read_channel(0).len(), 3);
}

#[test]
fn read_view_len_bounded_by_frame_length() {
    let b: DataBlock<f32> = DataBlock::new(1, 16, 0.5);
    let full = ReadData::new(&b, 16);
    assert!(full.buffer_len() <= b.block[0].len());
    let partial = ReadData::new(&b, 5);
    assert!(partial.buffer_len() <= b.block[0].len());
    assert_eq!(partial.read_channel(0).len(), 5);
}

#[test]
fn read_view_resolution_idempotent() {
    let mut b: DataBlock<f32> = DataBlock::new(2, 6, 0.0);
    for (c, chan) in b.block.iter_mut().enumerate() {
        for (i, s) in chan.iter_mut().enumerate() {
            *s = (c as f32) * 100.0 + i as f32;
        }
    }
    let view = ReadData::new(&b, 4);
    let first: Vec<f32> = view.read_channel(1).to_vec();
    let second: Vec<f32> = view.read_channel(1).to_vec();
    assert_eq!(first, second);
    // A second view over the same unchanged block sees the same data.
    let again = ReadData::new(&b, 4);
    assert_eq!(again.read_channel(1), first.as_slice());
}
