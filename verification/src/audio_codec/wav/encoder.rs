//! The encoder of a container: a container writer, and what it was told of
//! the samples.

use vstd::prelude::*;
use crate::audio_codec::encoder::LgEncoder;
use crate::audio_codec::error::{Error, ErrorView};
use crate::audio_codec::sample::{encodable, spec_encode, spec_unsupported, WireSample};
use crate::audio_codec::wav::writer::{
    spec_data_ck_size_position, spec_preamble, writable, LgWavWriter, WriterState,
};
use crate::audio_codec::AudioInfo;
use crate::io::IoError;
use crate::writer::LgWriter;

verus! {

/// The encoder as contracts see it.
pub struct EncoderState {
    pub info: AudioInfo,
    pub writer: WriterState,
}

impl EncoderState {
    pub open spec fn wf(self) -> bool {
        self.writer.wf()
    }
}

/// An encoder of one container into the sink `W`.
pub struct LgWavEncoder<W: LgWriter> {
    info: AudioInfo,
    writer: LgWavWriter<W>,
}

impl<W: LgWriter> View for LgWavEncoder<W> {
    type V = EncoderState;

    closed spec fn view(&self) -> EncoderState {
        EncoderState { info: self.info, writer: self.writer@ }
    }
}

impl<W: LgWriter> LgWavEncoder<W> {
    /// Writes all that stands before the samples into `writer`, at its
    /// position.
    pub fn new(writer: W, info: AudioInfo) -> (r: Result<Self, Error>)
        requires
            writable(info),
        ensures
            r is Ok <==> writer.sink().admits(spec_preamble(info).len() as int),
            r matches Ok(e) ==> e@.wf() && e@ == (EncoderState {
                info,
                writer: WriterState {
                    sink: writer.sink().put(spec_preamble(info)),
                    data_bytes_written: 0,
                    data_ck_size_position: spec_data_ck_size_position(info),
                },
            }),
            r matches Err(e) ==> e@ == ErrorView::Io(IoError::InvalidInput),
    {
        let writer = LgWavWriter::new(writer, &info)?;
        Ok(LgWavEncoder { info, writer })
    }

    /// Writes both size fields and moves back to the position held before,
    /// so that samples can go on being written.
    pub fn flush(&mut self) -> (r: Result<(), Error>)
        requires
            old(self)@.wf(),
        ensures
            r is Ok,
            final(self)@ == (EncoderState {
                writer: WriterState {
                    sink: old(self)@.writer.patched().sink.at(old(self)@.writer.sink.position),
                    ..old(self)@.writer
                },
                ..old(self)@
            }),
    {
        self.writer.flush()
    }

    /// Writes both size fields and gives up the encoder for its sink, which
    /// then holds the whole container.
    pub fn finish(self) -> (r: Result<W, Error>)
        requires
            self@.wf(),
        ensures
            r matches Ok(w) && w.sink() == self@.writer.patched().sink,
    {
        let mut this = self;
        this.writer.finish()?;
        Ok(this.writer.into_inner())
    }

    /// The bytes of samples written so far.
    pub fn data_bytes_written(&self) -> (n: u32)
        ensures
            n as int == self.spec_data_bytes(),
    {
        self.writer.data_bytes_written()
    }

    /// The sink, as it stands.
    pub fn get_ref(&self) -> (w: &W)
        ensures
            w.sink() == self@.writer.sink,
    {
        self.writer.get_ref()
    }

    /// Whether the encoder may be asked to take `sample`: the overall size
    /// stays within its field, or the codec refuses the sample, so that
    /// nothing is counted.
    pub fn can_encode(&self, sample: WireSample) -> (r: bool)
        requires
            self@.wf(),
        ensures
            r == self.has_room(sample),
    {
        !encodable(sample, self.info.sample_type_or_int(), self.info.bits_per_sample)
            || self.writer.has_room(self.info.bits_per_sample)
    }

    /// Writes one sample at the representation and depth that the encoder
    /// was made with.
    ///
    /// Where the codec or the sink refuses, nothing is written or counted.
    pub fn write(&mut self, sample: WireSample) -> (r: Result<(), Error>)
        requires
            old(self).has_room(sample),
        ensures
            final(self)@.wf(),
            final(self)@.info == old(self)@.info,
            match spec_encode(sample, old(self)@.info.spec_sample_type(), old(self)@.info.bits_per_sample) {
                None => {
                    &&& r matches Err(e) && e@ == ErrorView::Conversion(
                        spec_unsupported(
                            old(self)@.info.spec_sample_type(),
                            old(self)@.info.bits_per_sample,
                        ),
                    )
                    &&& final(self)@ == old(self)@
                },
                Some(bytes) => if old(self)@.writer.sink.admits(bytes.len() as int) {
                    &&& r is Ok
                    &&& final(self)@.writer == (WriterState {
                        sink: old(self)@.writer.sink.put(bytes),
                        data_bytes_written: old(self)@.writer.data_bytes_written
                            + old(self)@.info.spec_bytes_per_sample(),
                        ..old(self)@.writer
                    })
                } else {
                    &&& r matches Err(e) && e@ == ErrorView::Io(IoError::InvalidInput)
                    &&& final(self)@ == old(self)@
                },
            },
    {
        let sample_type = self.info.sample_type_or_int();
        self.writer.write_sample(sample, sample_type, self.info.bits_per_sample)
    }
}

impl<W: LgWriter> LgEncoder for LgWavEncoder<W> {
    open spec fn spec_info(&self) -> AudioInfo {
        self@.info
    }

    open spec fn spec_data_bytes(&self) -> int {
        self@.writer.data_bytes_written
    }

    open spec fn has_room(&self, sample: WireSample) -> bool {
        &&& self@.wf()
        &&& spec_encode(sample, self@.info.spec_sample_type(), self@.info.bits_per_sample) is Some
            ==> self@.writer.has_room(self@.info.bits_per_sample)
    }

    fn info(&self) -> (r: AudioInfo) {
        self.info
    }

    fn encode_sample(&mut self, sample: WireSample) -> (r: Result<(), Error>)
        ensures
            final(self)@.wf(),
            final(self)@.info == old(self)@.info,
            match spec_encode(sample, old(self)@.info.spec_sample_type(), old(self)@.info.bits_per_sample) {
                None => {
                    &&& r matches Err(e) && e@ == ErrorView::Conversion(
                        spec_unsupported(
                            old(self)@.info.spec_sample_type(),
                            old(self)@.info.bits_per_sample,
                        ),
                    )
                    &&& final(self)@ == old(self)@
                },
                Some(bytes) => if old(self)@.writer.sink.admits(bytes.len() as int) {
                    &&& r is Ok
                    &&& final(self)@.writer == (WriterState {
                        sink: old(self)@.writer.sink.put(bytes),
                        data_bytes_written: old(self)@.writer.data_bytes_written
                            + old(self)@.info.spec_bytes_per_sample(),
                        ..old(self)@.writer
                    })
                } else {
                    &&& r matches Err(e) && e@ == ErrorView::Io(IoError::InvalidInput)
                    &&& final(self)@ == old(self)@
                },
            },
    {
        self.write(sample)
    }

    fn encoded_samples(&self) -> (r: usize) {
        self.writer.data_bytes_written() as usize * self.info.bits_per_sample as usize
    }

    fn duration(&self) -> (r: usize) {
        self.len() / self.info.channels as usize / self.info.sample_rate as usize
    }

    fn len(&self) -> (r: usize) {
        self.writer.data_bytes_written() as usize / (self.info.bits_per_sample / 8) as usize
    }
}

} // verus!
