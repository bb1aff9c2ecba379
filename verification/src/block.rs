use vstd::prelude::*;

verus! {

/// A fixed-length, fixed-channel-count buffer of decoded samples plus
/// positional metadata. One buffer per channel; every channel buffer has
/// the same length (the stream's block frame count).
///
/// A block is allocated once at stream-open time and only its content is
/// mutated thereafter: the constructor fills every sample with a caller
/// supplied value, so no block ever exposes uninitialized memory.
pub struct DataBlock<S> {
    /// One sample buffer per channel.
    pub block: Vec<Vec<S>>,
    /// Absolute file-frame offset of the block's first sample.
    pub starting_frame_in_file: usize,
    /// The logical playback frame position this block was prepared to serve.
    pub wanted_start_smp: usize,
}

impl<S> DataBlock<S> {
    /// The per-channel sample data, one sequence per channel.
    pub open spec fn channels(&self) -> Seq<Seq<S>> {
        Seq::new(self.block@.len(), |c: int| self.block@[c]@)
    }

    /// Well-formed for a stream with the given frame count and channel
    /// count: one buffer per channel, each of exactly `frame_len` samples.
    pub open spec fn wf(&self, frame_len: nat, num_channels: nat) -> bool {
        &&& self.block@.len() == num_channels
        &&& forall|c: int|
            0 <= c < self.block@.len() ==> (#[trigger] self.block@[c])@.len() == frame_len
    }
}

impl<S: Copy> DataBlock<S> {
    /// Allocate a block for `num_channels` channels, every channel buffer
    /// sized to `frame_len` frames and every sample set to `fill`, anchored
    /// at position 0.
    pub fn new(num_channels: usize, frame_len: usize, fill: S) -> (r: Self)
        ensures
            r.wf(frame_len as nat, num_channels as nat),
            forall|c: int, i: int|
                0 <= c < num_channels && 0 <= i < frame_len ==> r.channels()[c][i] == fill,
            r.starting_frame_in_file == 0,
            r.wanted_start_smp == 0,
    {
        let mut block: Vec<Vec<S>> = Vec::with_capacity(num_channels);
        let mut c: usize = 0;
        while c < num_channels
            invariant
                c <= num_channels,
                block@.len() == c,
                forall|j: int| 0 <= j < c ==> (#[trigger] block@[j])@.len() == frame_len,
                forall|j: int, i: int|
                    0 <= j < c && 0 <= i < frame_len ==> block@[j]@[i] == fill,
            decreases num_channels - c,
        {
            let mut chan: Vec<S> = Vec::with_capacity(frame_len);
            let mut i: usize = 0;
            while i < frame_len
                invariant
                    i <= frame_len,
                    chan@.len() == i,
                    forall|k: int| 0 <= k < i ==> chan@[k] == fill,
                decreases frame_len - i,
            {
                chan.push(fill);
                i = i + 1;
            }
            block.push(chan);
            c = c + 1;
        }
        DataBlock { block, starting_frame_in_file: 0, wanted_start_smp: 0 }
    }

    /// A content-equal copy of this block, sample for sample, keeping the
    /// positional metadata. Used to satisfy an empty transfer entry from a
    /// warm cache without moving the cached block out.
    pub fn duplicate(&self) -> (r: Self)
        ensures
            r.block@.len() == self.block@.len(),
            forall|c: int|
                0 <= c < self.block@.len() ==> (#[trigger] r.block@[c])@ == self.block@[c]@,
            r.channels() == self.channels(),
            r.starting_frame_in_file == self.starting_frame_in_file,
            r.wanted_start_smp == self.wanted_start_smp,
    {
        let mut block: Vec<Vec<S>> = Vec::with_capacity(self.block.len());
        let mut c: usize = 0;
        while c < self.block.len()
            invariant
                c <= self.block@.len(),
                block@.len() == c,
                forall|j: int| 0 <= j < c ==> (#[trigger] block@[j])@ == self.block@[j]@,
            decreases self.block@.len() - c,
        {
            let src_chan: &Vec<S> = &self.block[c];
            let mut chan: Vec<S> = Vec::with_capacity(src_chan.len());
            let mut i: usize = 0;
            while i < src_chan.len()
                invariant
                    i <= src_chan@.len(),
                    chan@.len() == i,
                    forall|k: int| 0 <= k < i ==> chan@[k] == src_chan@[k],
                decreases src_chan@.len() - i,
            {
                chan.push(src_chan[i]);
                i = i + 1;
            }
            proof {
                assert(chan@ =~= src_chan@);
            }
            block.push(chan);
            c = c + 1;
        }
        let r = DataBlock {
            block,
            starting_frame_in_file: self.starting_frame_in_file,
            wanted_start_smp: self.wanted_start_smp,
        };
        proof {
            assert(r.channels() =~~= self.channels());
        }
        r
    }
}

} // verus!
