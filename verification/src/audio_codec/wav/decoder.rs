//! The decoder of a container: the scan for the format and the data, and
//! then the samples.

use vstd::prelude::*;
use crate::audio_codec::decoder::LgDecoder;
use crate::audio_codec::error::{Error, ErrorView};
use crate::audio_codec::sample::{spec_samples, WireSample};
use crate::audio_codec::wav::reader::{
    spec_read_header, spec_read_next_chunk, LgWavReader, ReaderState, RIFF,
};
use crate::audio_codec::wav::WavChunks;
use crate::audio_codec::AudioInfo;
use crate::reader::{LgReader, Stream};

verus! {

/// The decoder as contracts see it.
pub struct DecoderState {
    pub info: AudioInfo,
    /// The number of samples that the data chunk declares.
    pub sample_len: int,
    pub reader: ReaderState,
}

/// Every chunk takes at least the 4 bytes of its identifier from the source.
pub proof fn lemma_chunk_consumes(s: ReaderState)
    requires
        spec_read_next_chunk(s).result is Ok,
    ensures
        0 <= spec_read_next_chunk(s).state.stream.allowance <= s.stream.allowance - 4,
{
}

/// The scan of the chunks behind the header, up to the data chunk. A format
/// chunk replaces what an earlier one declared; the data chunk ends the scan
/// and needs a format before it, with a depth of a byte at least.
pub open spec fn spec_scan(s: ReaderState, info: Option<AudioInfo>) -> Result<DecoderState, ErrorView>
    decreases s.stream.allowance,
{
    let s1 = spec_read_next_chunk(s).state;
    match spec_read_next_chunk(s).result {
        Err(e) => Err(e),
        Ok(chunk) => {
            proof {
                lemma_chunk_consumes(s);
            }
            match chunk {
                WavChunks::Fmt(i) => spec_scan(s1, Some(i)),
                WavChunks::Fact => spec_scan(s1, info),
                WavChunks::Data(len) => match info {
                    None => Err(ErrorView::WrongFmt),
                    Some(i) => if i.bits_per_sample < 8 {
                        Err(ErrorView::WrongFmt)
                    } else {
                        Ok(
                            DecoderState {
                                info: i,
                                sample_len: len as int / (i.bits_per_sample as int / 8),
                                reader: s1,
                            },
                        )
                    },
                },
            }
        },
    }
}

/// What a container declares: its header, and then the scan of its chunks.
pub open spec fn spec_open(s: Stream) -> Result<DecoderState, ErrorView> {
    match spec_read_header(s) {
        Err(e) => Err(e),
        Ok(r) => spec_scan(r, None),
    }
}

/// A container that does not open with the tag `RIFF` is refused for its
/// header: no chunk of it is looked at, whatever stands behind the tag.
pub proof fn lemma_open_wrong_magic(s: Stream)
    requires
        s.admits(4),
        s.bytes.take(4) != RIFF@,
    ensures
        spec_open(s) == Err::<DecoderState, ErrorView>(ErrorView::WrongHeader),
{
}

/// A decoder of one container from the source `R`.
pub struct LgWavDecoder<R: LgReader> {
    info: AudioInfo,
    sample_len: usize,
    reader: LgWavReader<R>,
}

impl<R: LgReader> View for LgWavDecoder<R> {
    type V = DecoderState;

    closed spec fn view(&self) -> DecoderState {
        DecoderState { info: self.info, sample_len: self.sample_len as int, reader: self.reader@ }
    }
}

impl<R: LgReader> LgWavDecoder<R> {
    /// Reads the header and the chunks up to the data chunk.
    pub fn new(source: R) -> (r: Result<Self, Error>)
        ensures
            match spec_open(source.stream()) {
                Ok(d) => r matches Ok(dec) && dec@ == d,
                Err(e) => r matches Err(x) && x@ == e,
            },
            r matches Ok(dec) ==> dec@.info.channels > 0 && dec@.info.bits_per_sample >= 8,
    {
        // The header is checked here.
        let mut reader = LgWavReader::new(source)?;
        // No format chunk has been met yet.
        let mut info: Option<AudioInfo> = None;
        loop
            invariant
                spec_scan(reader@, info) == spec_open(source.stream()),
                info matches Some(i) ==> i.channels > 0,
            decreases reader@.stream.allowance,
        {
            let ghost before = reader@;
            let chunk = reader.read_next_chunk()?;
            proof {
                lemma_chunk_consumes(before);
            }
            match chunk {
                WavChunks::Fmt(wav_info) => {
                    info = Some(wav_info);
                },
                WavChunks::Fact => {},
                WavChunks::Data(d_len) => {
                    match info {
                        Some(info) => {
                            if info.bits_per_sample < 8 {
                                return Err(Error::WrongFmt);
                            }
                            let sample_len = (d_len / (info.bits_per_sample as u32 / 8)) as usize;
                            return Ok(LgWavDecoder { info, sample_len, reader });
                        },
                        None => {
                            return Err(Error::WrongFmt);
                        },
                    }
                },
            }
        }
    }

    /// The next sample, or nothing where no whole sample can be read.
    pub fn next_sample(&mut self) -> (r: Option<WireSample>)
        ensures
            if old(self).pending().len() > 0 {
                &&& r == Some(old(self).pending()[0])
                &&& final(self).pending() == old(self).pending().skip(1)
            } else {
                &&& r is None
                &&& final(self).pending() == Seq::<WireSample>::empty()
            },
            final(self).spec_info() == old(self).spec_info(),
            final(self).spec_len() == old(self).spec_len(),
    {
        let sample_type = self.info.sample_type_or_int();
        let r = WireSample::read(&mut self.reader, sample_type, self.info.bits_per_sample);
        proof {
            let rest = spec_samples(self.reader.stream(), sample_type, self.info.bits_per_sample);
            if r is Ok {
                assert((seq![r->Ok_0] + rest).skip(1) =~= rest);
            }
        }
        match r {
            Ok(v) => Some(v),
            Err(_) => None,
        }
    }
}

impl<R: LgReader> LgDecoder for LgWavDecoder<R> {
    open spec fn spec_info(&self) -> AudioInfo {
        self@.info
    }

    open spec fn spec_len(&self) -> int {
        self@.sample_len
    }

    open spec fn pending(&self) -> Seq<WireSample> {
        spec_samples(
            self@.reader.as_stream(),
            self@.info.spec_sample_type(),
            self@.info.bits_per_sample,
        )
    }

    fn info(&self) -> (r: AudioInfo) {
        self.info
    }

    fn samples(&mut self) -> (r: Vec<WireSample>) {
        let mut out: Vec<WireSample> = Vec::new();
        loop
            invariant
                self.info == old(self).info,
                self.sample_len == old(self).sample_len,
                out@ + self.pending() == old(self).pending(),
            decreases self.pending().len(),
        {
            match self.next_sample() {
                Some(v) => {
                    proof {
                        assert(out@.push(v) + self.pending() =~= out@ + (seq![v] + self.pending()));
                    }
                    out.push(v);
                },
                None => {
                    return out;
                },
            }
        }
    }

    fn duration(&self) -> (r: usize) {
        self.sample_len / self.info.channels as usize / self.info.sample_rate as usize
    }

    fn len(&self) -> (r: usize) {
        self.sample_len
    }

    fn is_empty(&self) -> (r: bool) {
        self.sample_len == 0
    }
}

} // verus!
