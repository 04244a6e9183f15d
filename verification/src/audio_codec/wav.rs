//! The RIFF/WAVE container.

use vstd::prelude::*;
use vstd::std_specs::convert::FromSpecImpl;
use crate::audio_codec::sample::{spec_samples, SampleType, WireSample};
use crate::audio_codec::AudioInfo;
use crate::reader::{LgReader, Stream};

pub mod decoder;
pub mod encoder;
pub mod laws;
pub mod reader;
pub mod writer;

verus! {

pub const WAVE_FORMAT_PCM: u16 = 0x0001;

pub const WAVE_FORMAT_IEEE_FLOAT: u16 = 0x0003;

pub const WAVE_FORMAT_ALAW: u16 = 0x0006;

pub const WAVE_FORMAT_MULAW: u16 = 0x0007;

pub const WAVE_FORMAT_EXTENSIBLE: u16 = 0xFFFE;

/// The encoding that a format chunk declares, by its 16-bit code.
#[allow(non_camel_case_types)]
#[derive(Debug, Clone, Copy, PartialEq, Eq, Structural)]
pub enum WavFmtTag {
    WAVE_FORMAT_PCM,
    WAVE_FORMAT_IEEE_FLOAT,
    WAVE_FORMAT_ALAW,
    WAVE_FORMAT_MULAW,
    WAVE_FORMAT_EXTENSIBLE,
    /// Any other code, kept as it was read.
    OTHER(u16),
}

impl WavFmtTag {
    /// The tag that the code `value` stands for. A known code never becomes
    /// `OTHER`.
    pub open spec fn spec_from_code(value: u16) -> WavFmtTag {
        if value == WAVE_FORMAT_PCM {
            WavFmtTag::WAVE_FORMAT_PCM
        } else if value == WAVE_FORMAT_IEEE_FLOAT {
            WavFmtTag::WAVE_FORMAT_IEEE_FLOAT
        } else if value == WAVE_FORMAT_ALAW {
            WavFmtTag::WAVE_FORMAT_ALAW
        } else if value == WAVE_FORMAT_MULAW {
            WavFmtTag::WAVE_FORMAT_MULAW
        } else if value == WAVE_FORMAT_EXTENSIBLE {
            WavFmtTag::WAVE_FORMAT_EXTENSIBLE
        } else {
            WavFmtTag::OTHER(value)
        }
    }

    /// The code under which the tag is written.
    pub open spec fn spec_code(self) -> u16 {
        match self {
            WavFmtTag::WAVE_FORMAT_PCM => WAVE_FORMAT_PCM,
            WavFmtTag::WAVE_FORMAT_IEEE_FLOAT => WAVE_FORMAT_IEEE_FLOAT,
            WavFmtTag::WAVE_FORMAT_ALAW => WAVE_FORMAT_ALAW,
            WavFmtTag::WAVE_FORMAT_MULAW => WAVE_FORMAT_MULAW,
            WavFmtTag::WAVE_FORMAT_EXTENSIBLE => WAVE_FORMAT_EXTENSIBLE,
            WavFmtTag::OTHER(value) => value,
        }
    }

    /// Every code is the code of the tag it stands for.
    pub proof fn lemma_code_round_trip(value: u16)
        ensures
            Self::spec_from_code(value).spec_code() == value,
    {
    }
}

impl Default for WavFmtTag {
    fn default() -> (r: Self)
        ensures
            r == WavFmtTag::WAVE_FORMAT_PCM,
    {
        WavFmtTag::WAVE_FORMAT_PCM
    }
}

impl From<u16> for WavFmtTag {
    fn from(value: u16) -> (r: Self) {
        if value == WAVE_FORMAT_PCM {
            WavFmtTag::WAVE_FORMAT_PCM
        } else if value == WAVE_FORMAT_IEEE_FLOAT {
            WavFmtTag::WAVE_FORMAT_IEEE_FLOAT
        } else if value == WAVE_FORMAT_ALAW {
            WavFmtTag::WAVE_FORMAT_ALAW
        } else if value == WAVE_FORMAT_MULAW {
            WavFmtTag::WAVE_FORMAT_MULAW
        } else if value == WAVE_FORMAT_EXTENSIBLE {
            WavFmtTag::WAVE_FORMAT_EXTENSIBLE
        } else {
            WavFmtTag::OTHER(value)
        }
    }
}

impl FromSpecImpl<u16> for WavFmtTag {
    open spec fn obeys_from_spec() -> bool {
        true
    }

    open spec fn from_spec(v: u16) -> Self {
        WavFmtTag::spec_from_code(v)
    }
}

impl From<WavFmtTag> for u16 {
    fn from(val: WavFmtTag) -> (r: u16) {
        match val {
            WavFmtTag::WAVE_FORMAT_PCM => WAVE_FORMAT_PCM,
            WavFmtTag::WAVE_FORMAT_IEEE_FLOAT => WAVE_FORMAT_IEEE_FLOAT,
            WavFmtTag::WAVE_FORMAT_ALAW => WAVE_FORMAT_ALAW,
            WavFmtTag::WAVE_FORMAT_MULAW => WAVE_FORMAT_MULAW,
            WavFmtTag::WAVE_FORMAT_EXTENSIBLE => WAVE_FORMAT_EXTENSIBLE,
            WavFmtTag::OTHER(value) => value,
        }
    }
}

impl FromSpecImpl<WavFmtTag> for u16 {
    open spec fn obeys_from_spec() -> bool {
        true
    }

    open spec fn from_spec(v: WavFmtTag) -> Self {
        v.spec_code()
    }
}

/// What the scan of a container meets, chunk by chunk.
#[derive(Debug, Clone, Copy, PartialEq, Eq)]
pub enum WavChunks {
    /// A format chunk, with what it declares.
    Fmt(AudioInfo),
    /// A `fact` chunk; its content is passed over.
    Fact,
    /// The start of the sample data, with its declared length in bytes.
    Data(u32),
}

/// The samples of a reader, one after the other, for as long as the reader
/// is lent.
pub struct LgWavSampleIter<'si, R: LgReader> {
    bits_per_sample: u16,
    sample_type: SampleType,
    reader: &'si mut R,
}

impl<'si, R: LgReader> LgWavSampleIter<'si, R> {
    /// What the reader still has to give.
    pub closed spec fn stream(&self) -> Stream {
        self.reader.stream()
    }

    pub closed spec fn spec_sample_type(&self) -> SampleType {
        self.sample_type
    }

    pub closed spec fn spec_bits_per_sample(&self) -> u16 {
        self.bits_per_sample
    }

    /// The samples not yet handed out, in order.
    pub open spec fn pending(&self) -> Seq<WireSample> {
        spec_samples(self.stream(), self.spec_sample_type(), self.spec_bits_per_sample())
    }

    pub fn new(reader: &'si mut R, sample_type: SampleType, bits_per_sample: u16) -> (r: Self)
        ensures
            r.stream() == old(reader).stream(),
            r.spec_sample_type() == sample_type,
            r.spec_bits_per_sample() == bits_per_sample,
    {
        LgWavSampleIter { sample_type, bits_per_sample, reader }
    }

    /// The next sample, or nothing where no whole sample can be read; after
    /// that there are no more.
    pub fn next(&mut self) -> (r: Option<WireSample>)
        ensures
            final(self).spec_sample_type() == old(self).spec_sample_type(),
            final(self).spec_bits_per_sample() == old(self).spec_bits_per_sample(),
            if old(self).pending().len() > 0 {
                &&& r == Some(old(self).pending()[0])
                &&& final(self).pending() == old(self).pending().skip(1)
            } else {
                &&& r is None
                &&& final(self).pending() == Seq::<WireSample>::empty()
            },
    {
        let r = WireSample::read(self.reader, self.sample_type, self.bits_per_sample);
        proof {
            let rest = self.pending();
            if r is Ok {
                assert((seq![r->Ok_0] + rest).skip(1) =~= rest);
            }
        }
        match r {
            Ok(v) => Some(v),
            Err(_) => None,
        }
    }
}

} // verus!
