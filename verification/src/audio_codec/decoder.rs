//! What every decoder offers.

use vstd::prelude::*;
use crate::audio_codec::sample::WireSample;
use crate::audio_codec::{spec_duration, AudioInfo};

verus! {

/// A stream of samples that is decoded once, from its first sample to its
/// last.
pub trait LgDecoder: Sized {
    /// What the stream declares of its samples.
    spec fn spec_info(&self) -> AudioInfo;

    /// The number of samples that the stream declares.
    spec fn spec_len(&self) -> int;

    /// The samples not yet handed out, in order.
    spec fn pending(&self) -> Seq<WireSample>;

    fn info(&self) -> (r: AudioInfo)
        ensures
            r == self.spec_info(),
    ;

    /// All the samples not yet handed out. They are handed out once: a
    /// second call finds none.
    fn samples(&mut self) -> (r: Vec<WireSample>)
        ensures
            r@ == old(self).pending(),
            final(self).pending() == Seq::<WireSample>::empty(),
            final(self).spec_info() == old(self).spec_info(),
            final(self).spec_len() == old(self).spec_len(),
    ;

    /// The length of the audio in whole seconds.
    fn duration(&self) -> (r: usize)
        requires
            self.spec_info().channels > 0,
            self.spec_info().sample_rate > 0,
        ensures
            r as int == spec_duration(self.spec_len(), self.spec_info()),
    ;

    /// The number of samples that the stream declares.
    fn len(&self) -> (r: usize)
        ensures
            r as int == self.spec_len(),
    ;

    fn is_empty(&self) -> (r: bool)
        ensures
            r == (self.spec_len() == 0),
    ;
}

} // verus!
