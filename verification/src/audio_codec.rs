//! Audio coding: what is known of a stream of samples, the errors of the
//! codec, the sample codec and the containers built on it.

use vstd::prelude::*;
use crate::audio_codec::sample::SampleType;

pub mod decoder;
pub mod encoder;
pub mod error;
pub mod sample;
pub mod wav;

verus! {

/// What a format chunk declares of the samples that follow it.
#[derive(Debug, Clone, Copy, PartialEq, Eq)]
pub struct AudioInfo {
    pub channels: u16,
    /// Samples per second and channel.
    pub sample_rate: u32,
    pub bits_per_sample: u16,
    /// `None` where the representation is not known.
    pub sample_type: Option<SampleType>,
}

impl AudioInfo {
    /// There is at least one channel, and a sample fills a whole, positive
    /// number of bytes.
    pub open spec fn wf(&self) -> bool {
        &&& self.channels > 0
        &&& self.bits_per_sample > 0
        &&& self.bits_per_sample % 8 == 0
    }

    /// The representation of the samples, integer where none is declared.
    pub open spec fn spec_sample_type(&self) -> SampleType {
        match self.sample_type {
            Some(st) => st,
            None => SampleType::INT,
        }
    }

    /// The representation of the samples, integer where none is declared.
    pub fn sample_type_or_int(&self) -> (st: SampleType)
        ensures
            st == self.spec_sample_type(),
    {
        match self.sample_type {
            Some(st) => st,
            None => SampleType::INT,
        }
    }

    /// The number of bytes that one sample fills.
    pub open spec fn spec_bytes_per_sample(&self) -> int {
        self.bits_per_sample as int / 8
    }

    /// The number of bytes that one sample fills.
    pub fn bytes_per_sample(&self) -> (n: u16)
        ensures
            n as int == self.spec_bytes_per_sample(),
    {
        self.bits_per_sample / 8
    }
}

impl Default for AudioInfo {
    fn default() -> (r: Self)
        ensures
            r == (AudioInfo { channels: 0, sample_rate: 0, bits_per_sample: 0, sample_type: None }),
    {
        AudioInfo { channels: 0, sample_rate: 0, bits_per_sample: 0, sample_type: None }
    }
}

/// The whole seconds that `sample_len` samples last: the samples of one
/// channel, divided by the sample rate, fractions dropped.
pub open spec fn spec_duration(sample_len: int, info: AudioInfo) -> int {
    sample_len / (info.channels as int) / (info.sample_rate as int)
}

} // verus!
