//! What every encoder offers.

use vstd::prelude::*;
use crate::audio_codec::error::Error;
use crate::audio_codec::sample::WireSample;
use crate::audio_codec::{spec_duration, AudioInfo};

verus! {

/// A stream of samples that is encoded sample by sample.
pub trait LgEncoder: Sized {
    /// What the stream declares of its samples.
    spec fn spec_info(&self) -> AudioInfo;

    /// The bytes of samples written so far.
    spec fn spec_data_bytes(&self) -> int;

    /// Whether the stream may be asked to take `sample`: a sample that is
    /// written needs room, one that is refused needs none.
    spec fn has_room(&self, sample: WireSample) -> bool;

    fn info(&self) -> (r: AudioInfo)
        ensures
            r == self.spec_info(),
    ;

    /// Writes one sample; this is the only way in which the stream grows.
    /// A sample that is refused leaves the count as it was.
    fn encode_sample(&mut self, sample: WireSample) -> (r: Result<(), Error>)
        requires
            old(self).has_room(sample),
        ensures
            final(self).spec_info() == old(self).spec_info(),
            final(self).spec_data_bytes() == old(self).spec_data_bytes() + (if r is Ok {
                old(self).spec_info().spec_bytes_per_sample()
            } else {
                0
            }),
    ;

    /// The bytes written so far, times the bits of one sample.
    fn encoded_samples(&self) -> (r: usize)
        requires
            self.spec_data_bytes() * self.spec_info().bits_per_sample <= usize::MAX,
        ensures
            r as int == self.spec_data_bytes() * self.spec_info().bits_per_sample,
    ;

    /// The length of the audio written so far, in whole seconds.
    fn duration(&self) -> (r: usize)
        requires
            self.spec_info().bits_per_sample >= 8,
            self.spec_info().channels > 0,
            self.spec_info().sample_rate > 0,
        ensures
            r as int == spec_duration(
                self.spec_data_bytes() / self.spec_info().spec_bytes_per_sample(),
                self.spec_info(),
            ),
    ;

    /// The number of samples written so far: the bytes written, divided by
    /// the bytes of one sample.
    fn len(&self) -> (r: usize)
        requires
            self.spec_info().bits_per_sample >= 8,
        ensures
            r as int == self.spec_data_bytes() / self.spec_info().spec_bytes_per_sample(),
    ;
}

} // verus!
