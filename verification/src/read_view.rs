use vstd::prelude::*;

use vstd::slice::slice_subrange;

use crate::block::DataBlock;

verus! {

/// A short-lived, read-only view over exactly one sample block, handed to
/// the consumer for the duration of one read call. It owns nothing, cannot
/// outlive the block it references, and exposes at most `len` frames per
/// channel — `len` tracks the valid length of a shorter trailing block at
/// end of stream.
pub struct ReadData<'a, S> {
    data: &'a DataBlock<S>,
    len: usize,
}

impl<'a, S> View for ReadData<'a, S> {
    type V = Seq<Seq<S>>;

    /// The sample data the view exposes: for each channel, exactly the
    /// first `len` samples of the underlying block.
    closed spec fn view(&self) -> Seq<Seq<S>> {
        Seq::new(
            self.data.block@.len(),
            |c: int| self.data.block@[c]@.subrange(0, self.len as int),
        )
    }
}

impl<'a, S> ReadData<'a, S> {
    /// A view can never expose more than the underlying block holds: its
    /// length is bounded by every channel buffer's length.
    #[verifier::type_invariant]
    spec fn bounded(self) -> bool {
        forall|c: int|
            0 <= c < self.data.block@.len() ==> self.len <= (#[trigger] self.data.block@[c])@.len()
    }

    /// The number of valid frames this view exposes.
    pub closed spec fn spec_len(&self) -> nat {
        self.len as nat
    }

    /// The full per-channel contents of the underlying block.
    pub closed spec fn spec_channels(&self) -> Seq<Seq<S>> {
        self.data.channels()
    }

    /// Borrow a read-only view of `data`, exposing the first `len` frames
    /// of every channel.
    pub fn new(data: &'a DataBlock<S>, len: usize) -> (r: Self)
        requires
            forall|c: int|
                0 <= c < data.block@.len() ==> len <= (#[trigger] data.block@[c])@.len(),
        ensures
            r.spec_len() == len,
            r.spec_channels() == data.channels(),
            r@ == Seq::new(data.block@.len(), |c: int| data.channels()[c].subrange(0, len as int)),
    {
        let r = ReadData { data, len };
        proof {
            assert(r@ =~~= Seq::new(
                data.block@.len(),
                |c: int| data.channels()[c].subrange(0, len as int),
            ));
        }
        r
    }

    /// The first `len` samples of channel `channel`. The returned slice is
    /// always within the bounds of the underlying block; an out-of-range
    /// channel index is a programming-contract violation and is ruled out
    /// up front.
    pub fn read_channel(&self, channel: usize) -> (r: &[S])
        requires
            channel < self@.len(),
        ensures
            r@ == self@[channel as int],
            r@.len() == self.spec_len(),
    {
        proof {
            use_type_invariant(&*self);
        }
        let chan: &Vec<S> = &self.data.block[channel];
        slice_subrange(chan.as_slice(), 0, self.len)
    }

    /// The channel count of the underlying block.
    pub fn num_channels(&self) -> (r: usize)
        ensures
            r == self@.len(),
            r == self.spec_channels().len(),
    {
        self.data.block.len()
    }

    /// The number of valid frames exposed, never more than any channel
    /// buffer of the underlying block holds.
    pub fn buffer_len(&self) -> (r: usize)
        ensures
            r == self.spec_len(),
            forall|c: int| 0 <= c < self@.len() ==> (#[trigger] self@[c]).len() == r,
            forall|c: int|
                0 <= c < self.spec_channels().len() ==> r <= (#[trigger] self.spec_channels()[c]).len(),
    {
        proof {
            use_type_invariant(&*self);
        }
        self.len
    }
}

/// Resolving a read view is idempotent: the data a view exposes is a pure
/// function of the underlying block's samples and the view's length, so two
/// views over the same unchanged block with the same length expose identical
/// sample data, and reading the same view twice yields the same samples.
pub proof fn lemma_read_view_deterministic<'a, 'b, S>(a: ReadData<'a, S>, b: ReadData<'b, S>)
    requires
        a.spec_channels() == b.spec_channels(),
        a.spec_len() == b.spec_len(),
    ensures
        a@ == b@,
{
    assert(a@.len() == a.data.block@.len());
    assert(b@.len() == b.data.block@.len());
    assert(a.spec_channels().len() == a.data.block@.len());
    assert(b.spec_channels().len() == b.data.block@.len());
    assert forall|c: int| 0 <= c < a@.len() implies a@[c] == b@[c] by {
        assert(a.data.channels()[c] == a.data.block@[c]@);
        assert(b.data.channels()[c] == b.data.block@[c]@);
        assert(a.data.block@[c]@ == b.data.block@[c]@);
        assert(a@[c] == a.data.block@[c]@.subrange(0, a.len as int));
        assert(b@[c] == b.data.block@[c]@.subrange(0, b.len as int));
    }
    assert(a@ =~= b@);
}

} // verus!
