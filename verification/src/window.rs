use vstd::prelude::*;

use crate::block::DataBlock;

verus! {

/// A full prefetch window: a fixed ring of consecutive sample blocks plus
/// the logical playback position (anchor) the window as a whole is prepared
/// to serve. Also the unit stored in a warm seek-point cache.
pub struct DataBlockCache<S> {
    /// Exactly one block per lookahead slot.
    pub blocks: Vec<DataBlock<S>>,
    /// The anchor: slot 0 serves this position, slot i the position
    /// `i` block frame counts later.
    pub wanted_start_smp: usize,
}

impl<S> DataBlockCache<S> {
    /// Coherent for a stream with the given configuration: `lookahead`
    /// well-formed blocks, consecutive in file order from the window's
    /// own anchor.
    pub open spec fn wf(&self, frame_len: nat, num_channels: nat, lookahead: nat) -> bool {
        &&& self.blocks@.len() == lookahead
        &&& forall|i: int|
            0 <= i < self.blocks@.len() ==> (#[trigger] self.blocks@[i]).wf(
                frame_len,
                num_channels,
            )
        &&& self.blocks@.len() > 0 ==> self.blocks@[0].wanted_start_smp
            == self.wanted_start_smp
        &&& forall|i: int|
            0 <= i < self.blocks@.len() - 1 ==> (#[trigger] self.blocks@[i
                + 1]).wanted_start_smp == self.blocks@[i].wanted_start_smp + frame_len
    }
}

impl<S: Copy> DataBlockCache<S> {
    /// Allocate a window of `lookahead` blocks for `num_channels` channels,
    /// every sample set to `fill`. All blocks are default-anchored at
    /// position 0; the window is not meaningful until the worker assigns a
    /// real anchor (`set_anchor`) and fills the content.
    pub fn new(num_channels: usize, frame_len: usize, lookahead: usize, fill: S) -> (r: Self)
        ensures
            r.blocks@.len() == lookahead,
            forall|i: int|
                0 <= i < lookahead ==> (#[trigger] r.blocks@[i]).wf(
                    frame_len as nat,
                    num_channels as nat,
                ),
            forall|i: int|
                0 <= i < lookahead ==> (#[trigger] r.blocks@[i]).wanted_start_smp == 0
                    && r.blocks@[i].starting_frame_in_file == 0,
            forall|i: int, c: int, k: int|
                0 <= i < lookahead && 0 <= c < num_channels && 0 <= k < frame_len
                    ==> r.blocks@[i].channels()[c][k] == fill,
            r.wanted_start_smp == 0,
    {
        let mut blocks: Vec<DataBlock<S>> = Vec::with_capacity(lookahead);
        let mut i: usize = 0;
        while i < lookahead
            invariant
                i <= lookahead,
                blocks@.len() == i,
                forall|j: int|
                    0 <= j < i ==> (#[trigger] blocks@[j]).wf(
                        frame_len as nat,
                        num_channels as nat,
                    ),
                forall|j: int|
                    0 <= j < i ==> (#[trigger] blocks@[j]).wanted_start_smp == 0
                        && blocks@[j].starting_frame_in_file == 0,
                forall|j: int, c: int, k: int|
                    0 <= j < i && 0 <= c < num_channels && 0 <= k < frame_len
                        ==> blocks@[j].channels()[c][k] == fill,
            decreases lookahead - i,
        {
            blocks.push(DataBlock::new(num_channels, frame_len, fill));
            i = i + 1;
        }
        DataBlockCache { blocks, wanted_start_smp: 0 }
    }

    /// Worker-side re-anchoring, done before the window's content is
    /// (re)filled for a jump point: anchor the window at `anchor` and every
    /// slot `i` at `anchor + i * frame_len`, leaving the sample data and the
    /// file offsets untouched.
    pub fn set_anchor(&mut self, anchor: usize, frame_len: usize)
        requires
            anchor + old(self).blocks@.len() * frame_len <= usize::MAX,
        ensures
            final(self).wanted_start_smp == anchor,
            final(self).blocks@.len() == old(self).blocks@.len(),
            forall|i: int|
                0 <= i < old(self).blocks@.len() ==> (#[trigger] final(self).blocks@[
                    i]).wanted_start_smp == anchor + i * frame_len,
            forall|i: int|
                0 <= i < old(self).blocks@.len() - 1 ==> (#[trigger] final(self).blocks@[i
                    + 1]).wanted_start_smp == final(self).blocks@[i].wanted_start_smp + frame_len,
            forall|i: int|
                0 <= i < old(self).blocks@.len() ==> (#[trigger] final(self).blocks@[i]).block
                    == old(self).blocks@[i].block,
            forall|i: int|
                0 <= i < old(self).blocks@.len() ==> (#[trigger] final(self).blocks@[
                    i]).starting_frame_in_file == old(self).blocks@[i].starting_frame_in_file,
    {
        self.wanted_start_smp = anchor;
        let n = self.blocks.len();
        let mut w: usize = anchor;
        let mut i: usize = 0;
        while i < n
            invariant
                i <= n,
                self.wanted_start_smp == anchor,
                self.blocks@.len() == n,
                n == old(self).blocks@.len(),
                anchor + n * frame_len <= usize::MAX,
                w == anchor + i * frame_len,
                forall|j: int|
                    0 <= j < i ==> (#[trigger] self.blocks@[j]).wanted_start_smp == anchor + j
                        * frame_len,
                forall|j: int|
                    0 <= j < n ==> (#[trigger] self.blocks@[j]).block == old(self).blocks@[j].block,
                forall|j: int|
                    0 <= j < n ==> (#[trigger] self.blocks@[j]).starting_frame_in_file == old(
                        self,
                    ).blocks@[j].starting_frame_in_file,
            decreases n - i,
        {
            proof {
                vstd::arithmetic::mul::lemma_mul_inequality(i as int + 1, n as int, frame_len as int);
                vstd::arithmetic::mul::lemma_mul_is_distributive_add_other_way(
                    frame_len as int,
                    i as int,
                    1,
                );
            }
            let mut b = self.blocks.remove(i);
            b.wanted_start_smp = w;
            self.blocks.insert(i, b);
            w = w + frame_len;
            i = i + 1;
        }
        proof {
            assert forall|j: int| 0 <= j < n - 1 implies (#[trigger] self.blocks@[j
                + 1]).wanted_start_smp == self.blocks@[j].wanted_start_smp + frame_len by {
                vstd::arithmetic::mul::lemma_mul_is_distributive_add_other_way(
                    frame_len as int,
                    j,
                    1,
                );
            }
        }
    }
}

/// The transfer entity for one prefetch slot: either empty and awaiting a
/// fresh disk read, empty but satisfiable by copying from a named seek-cache
/// entry (`use_cache`), or holding a ready sample block. Only the worker
/// transitions an entry from empty to ready; only the consumer moves a ready
/// block out.
pub struct DataBlockEntry<S> {
    /// When present, the index of the seek-cache entry the worker may copy
    /// from instead of issuing new disk I/O.
    pub use_cache: Option<usize>,
    /// The ready block, once the worker has supplied it. An entry is never
    /// ready while a `use_cache` reference is still unresolved.
    pub block: Option<DataBlock<S>>,
    /// The logical playback position the consumer expects this entry to
    /// serve.
    pub wanted_start_smp: usize,
}

/// The transfer entity for one seek-cache slot: either empty awaiting a fill
/// or holding a ready full prefetch window, plus the registered jump-point
/// position it is anchored to.
pub struct DataBlockCacheEntry<S> {
    /// The warm window, once the worker has filled it.
    pub cache: Option<DataBlockCache<S>>,
    /// The registered jump-point position this cache entry serves.
    pub wanted_start_smp: usize,
}

} // verus!
