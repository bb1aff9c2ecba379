use vstd::prelude::*;

use vstd::arithmetic::mul::{lemma_mul_inequality, lemma_mul_is_distributive_add_other_way};

use crate::block::DataBlock;
use crate::read_view::ReadData;
use crate::window::{DataBlockCache, DataBlockCacheEntry, DataBlockEntry};

verus! {

/// Why a transfer could not be carried out: the needed entry is not yet
/// ready (the consumer's fallback policy decides what happens next), or the
/// block or window offered no longer matches the position the entry serves
/// and must be discarded rather than served.
#[derive(Clone, Copy, Debug, PartialEq, Eq, Structural)]
pub enum TransferError {
    NotReady,
    StaleEntry,
}

/// How an empty entry carrying a `use_cache` reference was resolved: filled
/// by copying from the warm cache, or left for a normal disk read because
/// the reference was absent, dangling, or anchored at another position.
#[derive(Clone, Copy, Debug, PartialEq, Eq, Structural)]
pub enum CacheResolution {
    FilledFromCache,
    NeedsDiskRead,
}

/// A prefetch entry is well formed when a `use_cache` reference names an
/// existing cache entry and only stands on an empty entry, and a ready block
/// is well formed and anchored exactly where the entry is.
pub open spec fn entry_wf<S>(
    e: DataBlockEntry<S>,
    frame_len: nat,
    num_channels: nat,
    num_caches: nat,
) -> bool {
    &&& (e.use_cache matches Some(ci) ==> ci < num_caches && e.block is None)
    &&& (e.block matches Some(b) ==> b.wf(frame_len, num_channels) && b.wanted_start_smp
        == e.wanted_start_smp)
}

/// A cache entry is well formed when a ready window is coherent and anchored
/// exactly at the entry's registered jump point.
pub open spec fn cache_entry_wf<S>(
    e: DataBlockCacheEntry<S>,
    frame_len: nat,
    num_channels: nat,
    lookahead: nat,
) -> bool {
    e.cache matches Some(w) ==> w.wf(frame_len, num_channels, lookahead) && w.wanted_start_smp
        == e.wanted_start_smp
}

/// The single shared allocation of the stream: the active output block the
/// consumer is reading, the prefetch window of transfer entries the worker
/// is filling, and the registered seek-point caches. The consumer rotates
/// entries out of the window and replaces the active block; the worker only
/// fills entries that are still empty.
pub struct HeapData<S> {
    /// The block currently exposed to consumer reads.
    pub read_buffer: DataBlock<S>,
    /// The lookahead ring: slot 0 is the next block the consumer will
    /// promote, later slots follow in file order.
    pub prefetch_buffer: Vec<DataBlockEntry<S>>,
    /// One long-lived entry per registered jump point.
    pub caches: Vec<DataBlockCacheEntry<S>>,
    /// The stream's fixed number of frames per channel per block.
    pub block_frame_count: usize,
}

impl<S> HeapData<S> {
    /// The stream's channel count, as carried by the active output block.
    pub open spec fn num_channels(&self) -> nat {
        self.read_buffer.block@.len()
    }

    /// The stream's frame count per block.
    pub open spec fn frame_len(&self) -> nat {
        self.block_frame_count as nat
    }

    /// The configured lookahead depth.
    pub open spec fn lookahead(&self) -> nat {
        self.prefetch_buffer@.len()
    }

    /// Slot anchors ascend in steps of one block frame count: slot i serves
    /// the block immediately following slot i - 1 in file order.
    pub open spec fn anchors_ascend(&self) -> bool {
        forall|i: int|
            0 <= i < self.prefetch_buffer@.len() - 1 ==> (#[trigger] self.prefetch_buffer@[i
                + 1]).wanted_start_smp == self.prefetch_buffer@[i].wanted_start_smp
                + self.block_frame_count
    }

    /// Well-formedness of the whole shared unit: a well-formed active block,
    /// a non-empty window of well-formed entries with ascending anchors, and
    /// well-formed cache entries sized to the same configuration.
    pub open spec fn wf(&self) -> bool {
        &&& self.read_buffer.wf(self.frame_len(), self.num_channels())
        &&& self.prefetch_buffer@.len() >= 1
        &&& forall|i: int|
            0 <= i < self.prefetch_buffer@.len() ==> entry_wf(
                #[trigger] self.prefetch_buffer@[i],
                self.frame_len(),
                self.num_channels(),
                self.caches@.len() as nat,
            )
        &&& self.anchors_ascend()
        &&& forall|i: int|
            0 <= i < self.caches@.len() ==> cache_entry_wf(
                #[trigger] self.caches@[i],
                self.frame_len(),
                self.num_channels(),
                self.lookahead(),
            )
    }
}

/// One successful consumer rotation, related state to state: slot 0's ready
/// block became the active output block, every other slot moved down one
/// position, and a fresh empty entry was appended at the tail, anchored one
/// block frame count past the old tail.
pub open spec fn rotate_step<S>(pre: HeapData<S>, post: HeapData<S>) -> bool {
    let n = pre.prefetch_buffer@.len() as int;
    &&& n >= 1
    &&& pre.prefetch_buffer@[0].block is Some
    &&& post.block_frame_count == pre.block_frame_count
    &&& post.read_buffer == pre.prefetch_buffer@[0].block->Some_0
    &&& post.read_buffer.wanted_start_smp == pre.prefetch_buffer@[0].wanted_start_smp
    &&& post.prefetch_buffer@.len() == n
    &&& forall|i: int|
        0 <= i < n - 1 ==> #[trigger] post.prefetch_buffer@[i] == pre.prefetch_buffer@[i + 1]
    &&& post.prefetch_buffer@[n - 1].use_cache is None
    &&& post.prefetch_buffer@[n - 1].block is None
    &&& post.prefetch_buffer@[n - 1].wanted_start_smp == pre.prefetch_buffer@[n
        - 1].wanted_start_smp + pre.block_frame_count
    &&& post.caches == pre.caches
}

/// The cache entry `ci` can satisfy, without new disk I/O, an empty entry
/// that serves position `wanted`: the reference is in bounds, the cache is
/// ready, and its anchor equals `wanted` (no stale-cache reuse).
pub open spec fn warm_match<S>(h: HeapData<S>, ci: int, wanted: usize) -> bool {
    &&& 0 <= ci < h.caches@.len()
    &&& h.caches@[ci].cache is Some
    &&& h.caches@[ci].wanted_start_smp == wanted
}

/// A window of `n` empty transfer entries with ascending anchors starting at
/// `anchor`.
fn empty_entries<S>(anchor: usize, frame_len: usize, n: usize) -> (r: Vec<DataBlockEntry<S>>)
    requires
        anchor + n * frame_len <= usize::MAX,
    ensures
        r@.len() == n,
        forall|i: int| 0 <= i < n ==> (#[trigger] r@[i]).use_cache is None,
        forall|i: int| 0 <= i < n ==> (#[trigger] r@[i]).block is None,
        forall|i: int|
            0 <= i < n ==> (#[trigger] r@[i]).wanted_start_smp == anchor + i * frame_len,
{
    let mut r: Vec<DataBlockEntry<S>> = Vec::with_capacity(n);
    let mut w: usize = anchor;
    let mut i: usize = 0;
    while i < n
        invariant
            i <= n,
            r@.len() == i,
            anchor + n * frame_len <= usize::MAX,
            w == anchor + i * frame_len,
            forall|j: int| 0 <= j < i ==> (#[trigger] r@[j]).use_cache is None,
            forall|j: int| 0 <= j < i ==> (#[trigger] r@[j]).block is None,
            forall|j: int|
                0 <= j < i ==> (#[trigger] r@[j]).wanted_start_smp == anchor + j * frame_len,
        decreases n - i,
    {
        proof {
            lemma_mul_inequality(i as int + 1, n as int, frame_len as int);
            lemma_mul_is_distributive_add_other_way(frame_len as int, i as int, 1);
        }
        r.push(DataBlockEntry { use_cache: None, block: None, wanted_start_smp: w });
        w = w + frame_len;
        i = i + 1;
    }
    r
}

impl<S: Copy> HeapData<S> {
    /// Allocate the shared unit at stream-open time: an active output block
    /// with every sample set to `fill`, a window of `lookahead` empty
    /// entries anchored at position 0, and one registered (still empty)
    /// cache entry per jump point. Nothing is reallocated afterwards.
    pub fn new(
        num_channels: usize,
        block_frame_count: usize,
        lookahead: usize,
        jump_points: &Vec<usize>,
        fill: S,
    ) -> (r: Self)
        requires
            lookahead >= 1,
            lookahead * block_frame_count <= usize::MAX,
        ensures
            r.wf(),
            r.block_frame_count == block_frame_count,
            r.num_channels() == num_channels,
            r.lookahead() == lookahead,
            r.read_buffer.wanted_start_smp == 0,
            r.read_buffer.starting_frame_in_file == 0,
            forall|c: int, k: int|
                0 <= c < num_channels && 0 <= k < block_frame_count
                    ==> r.read_buffer.channels()[c][k] == fill,
            forall|i: int| 0 <= i < lookahead ==> (#[trigger] r.prefetch_buffer@[i]).block is None,
            forall|i: int|
                0 <= i < lookahead ==> (#[trigger] r.prefetch_buffer@[i]).use_cache is None,
            forall|i: int|
                0 <= i < lookahead ==> (#[trigger] r.prefetch_buffer@[i]).wanted_start_smp == i
                    * block_frame_count,
            r.caches@.len() == jump_points@.len(),
            forall|i: int| 0 <= i < jump_points@.len() ==> (#[trigger] r.caches@[i]).cache is None,
            forall|i: int|
                0 <= i < jump_points@.len() ==> (#[trigger] r.caches@[i]).wanted_start_smp
                    == jump_points@[i],
    {
        let read_buffer = DataBlock::new(num_channels, block_frame_count, fill);
        let prefetch_buffer = empty_entries(0, block_frame_count, lookahead);
        let mut caches: Vec<DataBlockCacheEntry<S>> = Vec::with_capacity(jump_points.len());
        let mut i: usize = 0;
        while i < jump_points.len()
            invariant
                i <= jump_points@.len(),
                caches@.len() == i,
                forall|j: int| 0 <= j < i ==> (#[trigger] caches@[j]).cache is None,
                forall|j: int|
                    0 <= j < i ==> (#[trigger] caches@[j]).wanted_start_smp == jump_points@[j],
            decreases jump_points@.len() - i,
        {
            caches.push(DataBlockCacheEntry { cache: None, wanted_start_smp: jump_points[i] });
            i = i + 1;
        }
        let r = HeapData { read_buffer, prefetch_buffer, caches, block_frame_count };
        proof {
            assert forall|j: int| 0 <= j < lookahead - 1 implies (#[trigger] r.prefetch_buffer@[j
                + 1]).wanted_start_smp == r.prefetch_buffer@[j].wanted_start_smp
                + r.block_frame_count by {
                lemma_mul_is_distributive_add_other_way(block_frame_count as int, j, 1);
            }
        }
        r
    }

    /// Consumer-side rotation: promote a ready slot 0 into the active output
    /// block, shift all remaining slots down one position, and append a new
    /// empty entry at the tail, anchored one full window length past the
    /// promoted block. Never blocks: when slot 0 is not yet ready, nothing
    /// changes and the consumer's fallback policy decides what happens next.
    pub fn rotate(&mut self) -> (r: Result<(), TransferError>)
        requires
            old(self).wf(),
            old(self).prefetch_buffer@.last().wanted_start_smp + old(self).block_frame_count
                <= usize::MAX,
        ensures
            final(self).wf(),
            match r {
                Ok(()) => rotate_step(*old(self), *final(self)),
                Err(e) => {
                    &&& e == TransferError::NotReady
                    &&& old(self).prefetch_buffer@[0].block is None
                    &&& *final(self) == *old(self)
                },
            },
    {
        if self.prefetch_buffer[0].block.is_none() {
            return Err(TransferError::NotReady);
        }
        let n = self.prefetch_buffer.len();
        let tail_wanted = self.prefetch_buffer[n - 1].wanted_start_smp + self.block_frame_count;
        let head = self.prefetch_buffer.remove(0);
        self.prefetch_buffer.push(
            DataBlockEntry { use_cache: None, block: None, wanted_start_smp: tail_wanted },
        );
        self.read_buffer = head.block.unwrap();
        Ok(())
    }

    /// Worker-side fill: transition the entry in `slot` to ready with
    /// `block`. A block anchored anywhere other than the position the entry
    /// now serves is stale (a seek discarded the in-flight work) and is
    /// rejected rather than served.
    pub fn fill_slot(&mut self, slot: usize, block: DataBlock<S>) -> (r: Result<(), TransferError>)
        requires
            old(self).wf(),
            slot < old(self).prefetch_buffer@.len(),
            block.wf(old(self).frame_len(), old(self).num_channels()),
        ensures
            final(self).wf(),
            match r {
                Ok(()) => {
                    &&& block.wanted_start_smp == old(self).prefetch_buffer@[slot
                        as int].wanted_start_smp
                    &&& final(self).prefetch_buffer@ == old(self).prefetch_buffer@.update(
                        slot as int,
                        (DataBlockEntry {
                            use_cache: None,
                            block: Some(block),
                            wanted_start_smp: old(self).prefetch_buffer@[slot
                                as int].wanted_start_smp,
                        }),
                    )
                    &&& final(self).read_buffer == old(self).read_buffer
                    &&& final(self).caches == old(self).caches
                    &&& final(self).block_frame_count == old(self).block_frame_count
                },
                Err(e) => {
                    &&& e == TransferError::StaleEntry
                    &&& block.wanted_start_smp != old(self).prefetch_buffer@[slot
                        as int].wanted_start_smp
                    &&& *final(self) == *old(self)
                },
            },
    {
        if block.wanted_start_smp != self.prefetch_buffer[slot].wanted_start_smp {
            return Err(TransferError::StaleEntry);
        }
        let mut e = self.prefetch_buffer.remove(slot);
        e.use_cache = None;
        e.block = Some(block);
        self.prefetch_buffer.insert(slot, e);
        proof {
            assert(self.prefetch_buffer@ =~= old(self).prefetch_buffer@.update(
                slot as int,
                (DataBlockEntry {
                    use_cache: None,
                    block: Some(block),
                    wanted_start_smp: old(self).prefetch_buffer@[slot as int].wanted_start_smp,
                }),
            ));
        }
        Ok(())
    }

    /// Worker-side shortcut marker: note on a still-empty entry that the
    /// cache entry `cache_index` may satisfy it without new disk I/O.
    pub fn set_use_cache(&mut self, slot: usize, cache_index: usize)
        requires
            old(self).wf(),
            slot < old(self).prefetch_buffer@.len(),
            cache_index < old(self).caches@.len(),
            old(self).prefetch_buffer@[slot as int].block is None,
        ensures
            final(self).wf(),
            final(self).prefetch_buffer@ == old(self).prefetch_buffer@.update(
                slot as int,
                (DataBlockEntry {
                    use_cache: Some(cache_index),
                    block: None,
                    wanted_start_smp: old(self).prefetch_buffer@[slot as int].wanted_start_smp,
                }),
            ),
            final(self).read_buffer == old(self).read_buffer,
            final(self).caches == old(self).caches,
            final(self).block_frame_count == old(self).block_frame_count,
    {
        let mut e = self.prefetch_buffer.remove(slot);
        e.use_cache = Some(cache_index);
        e.block = None;
        self.prefetch_buffer.insert(slot, e);
        proof {
            assert(self.prefetch_buffer@ =~= old(self).prefetch_buffer@.update(
                slot as int,
                (DataBlockEntry {
                    use_cache: Some(cache_index),
                    block: None,
                    wanted_start_smp: old(self).prefetch_buffer@[slot as int].wanted_start_smp,
                }),
            ));
        }
    }

    /// Worker-side resolution of a `use_cache` shortcut on the still-empty
    /// entry in `slot`. When the referenced cache entry is ready and is
    /// anchored exactly where the entry is, the entry is filled with a copy
    /// of the cache window's slot 0 block, without new disk I/O. Otherwise
    /// (no reference, dangling reference, empty cache, or an anchor that no
    /// longer matches) the reference is cleared and the entry is left empty
    /// for a normal disk read; a stale or dangling cache is never served.
    pub fn resolve_slot_from_cache(&mut self, slot: usize) -> (r: CacheResolution)
        requires
            old(self).wf(),
            slot < old(self).prefetch_buffer@.len(),
            old(self).prefetch_buffer@[slot as int].block is None,
        ensures
            final(self).wf(),
            final(self).read_buffer == old(self).read_buffer,
            final(self).caches == old(self).caches,
            final(self).block_frame_count == old(self).block_frame_count,
            final(self).prefetch_buffer@.len() == old(self).prefetch_buffer@.len(),
            forall|i: int|
                0 <= i < old(self).prefetch_buffer@.len() && i != slot
                    ==> #[trigger] final(self).prefetch_buffer@[i] == old(self).prefetch_buffer@[i],
            final(self).prefetch_buffer@[slot as int].wanted_start_smp == old(self).prefetch_buffer@[slot as int].wanted_start_smp,
            final(self).prefetch_buffer@[slot as int].use_cache is None,
            match r {
                CacheResolution::FilledFromCache => {
                    let e = old(self).prefetch_buffer@[slot as int];
                    &&& e.use_cache is Some
                    &&& warm_match(*old(self), e.use_cache->Some_0 as int, e.wanted_start_smp)
                    &&& final(self).prefetch_buffer@[slot as int].block is Some
                    &&& ({
                        let b = final(self).prefetch_buffer@[slot as int].block->Some_0;
                        let w = old(self).caches@[e.use_cache->Some_0 as int].cache->Some_0;
                        &&& b.channels() == w.blocks@[0].channels()
                        &&& b.starting_frame_in_file == w.blocks@[0].starting_frame_in_file
                        &&& b.wanted_start_smp == w.blocks@[0].wanted_start_smp
                    })
                },
                CacheResolution::NeedsDiskRead => {
                    let e = old(self).prefetch_buffer@[slot as int];
                    &&& final(self).prefetch_buffer@[slot as int].block is None
                    &&& (e.use_cache is Some ==> !warm_match(
                        *old(self),
                        e.use_cache->Some_0 as int,
                        e.wanted_start_smp,
                    ))
                },
            },
    {
        let entry_wanted = self.prefetch_buffer[slot].wanted_start_smp;
        let reference = self.prefetch_buffer[slot].use_cache;
        let resolved: Option<DataBlock<S>> = match reference {
            Some(ci) => {
                let centry = &self.caches[ci];
                match &centry.cache {
                    Some(w) => {
                        if centry.wanted_start_smp == entry_wanted {
                            Some(w.blocks[0].duplicate())
                        } else {
                            None
                        }
                    },
                    None => None,
                }
            },
            None => None,
        };
        let mut e = self.prefetch_buffer.remove(slot);
        e.use_cache = None;
        let outcome = match resolved {
            Some(b) => {
                e.block = Some(b);
                CacheResolution::FilledFromCache
            },
            None => CacheResolution::NeedsDiskRead,
        };
        self.prefetch_buffer.insert(slot, e);
        outcome
    }

    /// Worker-side cache fill: transition the registered cache entry
    /// `cache_index` to ready with `window`. A window anchored anywhere
    /// other than the entry's registered jump point is stale and is rejected
    /// rather than served.
    pub fn store_cache(&mut self, cache_index: usize, window: DataBlockCache<S>) -> (r: Result<
        (),
        TransferError,
    >)
        requires
            old(self).wf(),
            cache_index < old(self).caches@.len(),
            window.wf(old(self).frame_len(), old(self).num_channels(), old(self).lookahead()),
        ensures
            final(self).wf(),
            match r {
                Ok(()) => {
                    &&& window.wanted_start_smp == old(self).caches@[cache_index
                        as int].wanted_start_smp
                    &&& final(self).caches@ == old(self).caches@.update(
                        cache_index as int,
                        (DataBlockCacheEntry {
                            cache: Some(window),
                            wanted_start_smp: old(self).caches@[cache_index
                                as int].wanted_start_smp,
                        }),
                    )
                    &&& final(self).read_buffer == old(self).read_buffer
                    &&& final(self).prefetch_buffer == old(self).prefetch_buffer
                    &&& final(self).block_frame_count == old(self).block_frame_count
                },
                Err(e) => {
                    &&& e == TransferError::StaleEntry
                    &&& window.wanted_start_smp != old(self).caches@[cache_index
                        as int].wanted_start_smp
                    &&& *final(self) == *old(self)
                },
            },
    {
        if window.wanted_start_smp != self.caches[cache_index].wanted_start_smp {
            return Err(TransferError::StaleEntry);
        }
        let mut e = self.caches.remove(cache_index);
        e.cache = Some(window);
        self.caches.insert(cache_index, e);
        proof {
            assert(self.caches@ =~= old(self).caches@.update(
                cache_index as int,
                (DataBlockCacheEntry {
                    cache: Some(window),
                    wanted_start_smp: old(self).caches@[cache_index as int].wanted_start_smp,
                }),
            ));
        }
        Ok(())
    }

    /// Consumer-side lookup for a seek: the index of the first registered
    /// cache entry anchored at `wanted_start_smp`, if any.
    pub fn find_cache(&self, wanted_start_smp: usize) -> (r: Option<usize>)
        ensures
            match r {
                Some(ci) => {
                    &&& ci < self.caches@.len()
                    &&& self.caches@[ci as int].wanted_start_smp == wanted_start_smp
                    &&& forall|j: int|
                        0 <= j < ci ==> (#[trigger] self.caches@[j]).wanted_start_smp
                            != wanted_start_smp
                },
                None => forall|j: int|
                    0 <= j < self.caches@.len() ==> (#[trigger] self.caches@[j]).wanted_start_smp
                        != wanted_start_smp,
            },
    {
        let mut i: usize = 0;
        while i < self.caches.len()
            invariant
                i <= self.caches@.len(),
                forall|j: int|
                    0 <= j < i ==> (#[trigger] self.caches@[j]).wanted_start_smp
                        != wanted_start_smp,
            decreases self.caches@.len() - i,
        {
            if self.caches[i].wanted_start_smp == wanted_start_smp {
                return Some(i);
            }
            i = i + 1;
        }
        None
    }

    /// Consumer-side read: a short-lived read-only view over the active
    /// output block, exposing its first `len` frames per channel — `len` is
    /// the block frame count except for a shorter trailing block at end of
    /// stream. Borrows only; the hot path allocates nothing.
    pub fn read_active(&self, len: usize) -> (r: ReadData<'_, S>)
        requires
            self.wf(),
            len <= self.frame_len(),
        ensures
            r.spec_len() == len,
            r.spec_channels() == self.read_buffer.channels(),
            r@.len() == self.num_channels(),
            forall|c: int|
                0 <= c < self.num_channels() ==> r@[c] == self.read_buffer.channels()[
                    c].subrange(0, len as int),
    {
        ReadData::new(&self.read_buffer, len)
    }

    /// Seek-side discard: every in-flight entry is stale once the consumer
    /// moves to `anchor`, so the whole window is emptied and re-anchored
    /// there; stale entries are never served.
    pub fn reset_window(&mut self, anchor: usize)
        requires
            old(self).wf(),
            anchor + old(self).prefetch_buffer@.len() * old(self).block_frame_count
                <= usize::MAX,
        ensures
            final(self).wf(),
            final(self).read_buffer == old(self).read_buffer,
            final(self).caches == old(self).caches,
            final(self).block_frame_count == old(self).block_frame_count,
            final(self).prefetch_buffer@.len() == old(self).prefetch_buffer@.len(),
            forall|i: int|
                0 <= i < old(self).prefetch_buffer@.len() ==> (#[trigger] final(self).prefetch_buffer@[i]).use_cache is None,
            forall|i: int|
                0 <= i < old(self).prefetch_buffer@.len() ==> (#[trigger] final(self).prefetch_buffer@[i]).block is None,
            forall|i: int|
                0 <= i < old(self).prefetch_buffer@.len() ==> (#[trigger] final(self).prefetch_buffer@[i]).wanted_start_smp == anchor + i * old(self).block_frame_count,
    {
        let n = self.prefetch_buffer.len();
        let frame_len = self.block_frame_count;
        self.prefetch_buffer = empty_entries(anchor, frame_len, n);
        proof {
            assert forall|j: int| 0 <= j < n - 1 implies (#[trigger] self.prefetch_buffer@[j
                + 1]).wanted_start_smp == self.prefetch_buffer@[j].wanted_start_smp
                + self.block_frame_count by {
                lemma_mul_is_distributive_add_other_way(frame_len as int, j, 1);
            }
        }
    }
}

/// Sequential-order law for consecutive rotations. Take any chain of states
/// `states[0], ..., states[k]` in which every adjacent pair is one
/// successful rotation, starting from a window with ascending slot anchors
/// anchored at `P = states[0].prefetch_buffer[0].wanted_start_smp`. Then
/// after the `k` rotations the anchors still ascend, the window is anchored
/// at `P + k * block_frame_count`, and (for `k >= 1`) the active output
/// block serves `P + (k - 1) * block_frame_count`: blocks are promoted in
/// exact file order, one block frame count at a time.
pub proof fn lemma_consecutive_rotations<S>(states: Seq<HeapData<S>>)
    requires
        states.len() >= 1,
        states[0].prefetch_buffer@.len() >= 1,
        states[0].anchors_ascend(),
        forall|j: int|
            0 <= j < states.len() - 1 ==> #[trigger] rotate_step(states[j], states[j + 1]),
    ensures
        states.last().anchors_ascend(),
        states.last().prefetch_buffer@.len() == states[0].prefetch_buffer@.len(),
        states.last().block_frame_count == states[0].block_frame_count,
        states.last().prefetch_buffer@[0].wanted_start_smp == states[0].prefetch_buffer@[
            0].wanted_start_smp + (states.len() - 1) * states[0].block_frame_count,
        states.len() >= 2 ==> states.last().read_buffer.wanted_start_smp == states[
            0].prefetch_buffer@[0].wanted_start_smp + (states.len() - 2) * states[
            0].block_frame_count,
    decreases states.len(),
{
    let p = states[0].prefetch_buffer@[0].wanted_start_smp as int;
    let f = states[0].block_frame_count as int;
    if states.len() == 1 {
        // No rotation: the window stands where it was anchored.
        assert((states.len() - 1) * f == 0) by (nonlinear_arith)
            requires
                states.len() == 1,
        ;
    } else {
        let prefix = states.drop_last();
        let k = states.len() - 2;
        assert(prefix[0] == states[0]);
        assert forall|j: int| 0 <= j < prefix.len() - 1 implies #[trigger] rotate_step(
            prefix[j],
            prefix[j + 1],
        ) by {
            assert(prefix[j] == states[j]);
            assert(prefix[j + 1] == states[j + 1]);
            assert(rotate_step(states[j], states[j + 1]));
        }
        lemma_consecutive_rotations(prefix);
        let pre = states[k as int];
        let post = states.last();
        assert(pre == prefix.last());
        assert(rotate_step(states[k as int], states[k as int + 1]));
        let n = pre.prefetch_buffer@.len() as int;
        // The new window's anchors still ascend.
        assert forall|i: int| 0 <= i < post.prefetch_buffer@.len() - 1 implies (
        #[trigger] post.prefetch_buffer@[i + 1]).wanted_start_smp == post.prefetch_buffer@[
            i].wanted_start_smp + post.block_frame_count by {
            if i + 1 < n - 1 {
                assert(post.prefetch_buffer@[i] == pre.prefetch_buffer@[i + 1]);
                assert(post.prefetch_buffer@[i + 1] == pre.prefetch_buffer@[i + 2]);
            } else {
                assert(i + 1 == n - 1);
                if n >= 2 {
                    assert(post.prefetch_buffer@[i] == pre.prefetch_buffer@[i + 1]);
                }
            }
        }
        // The window's anchor advances by one block frame count.
        if n >= 2 {
            assert(post.prefetch_buffer@[0] == pre.prefetch_buffer@[1]);
            assert(pre.prefetch_buffer@[1].wanted_start_smp == pre.prefetch_buffer@[
                0].wanted_start_smp + pre.block_frame_count);
        } else {
            assert(post.prefetch_buffer@[0].wanted_start_smp == pre.prefetch_buffer@[
                0].wanted_start_smp + pre.block_frame_count);
        }
        assert(pre.prefetch_buffer@[0].wanted_start_smp == p + k * f);
        lemma_mul_is_distributive_add_other_way(f, k as int, 1);
        assert((k + 1) * f == k * f + f);
        // The promoted block serves exactly where the old slot 0 stood.
        assert(post.read_buffer.wanted_start_smp == pre.prefetch_buffer@[0].wanted_start_smp);
    }
}

} // verus!
