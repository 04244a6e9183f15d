//! The container writer: the header and the format chunk at construction,
//! samples one by one, and the two size fields written once the sizes are
//! known.

use vstd::prelude::*;
use crate::audio_codec::error::{lift, Error, ErrorView};
use crate::audio_codec::sample::{spec_encode, spec_unsupported, SampleType, WireSample};
use crate::audio_codec::wav::reader::{CK_DATA, CK_FMT, RIFF, WAVE};
use crate::audio_codec::wav::{WAVE_FORMAT_EXTENSIBLE, WAVE_FORMAT_IEEE_FLOAT, WAVE_FORMAT_PCM};
use crate::audio_codec::AudioInfo;
use crate::bytes::endian::{spec_u16_le_bytes, spec_u32_le_bytes};
use crate::io::IoError;
use crate::writer::{lemma_put_put, LgWriter, Sink};

verus! {

/// The offset of the overall size in the header.
pub const RIFF_CK_SIZE_POSITION: usize = 4;

/// The sub-format that an extensible format chunk names for integer samples.
pub const SUB_FORMAT_PCM: [u8; 16] = [
    0x01,
    0x00,
    0x00,
    0x00,
    0x00,
    0x00,
    0x10,
    0x00,
    0x80,
    0x00,
    0x00,
    0xaa,
    0x00,
    0x38,
    0x9b,
    0x71,
];

/// The average number of bytes per second that a format chunk declares.
pub open spec fn spec_bytes_per_sec(info: AudioInfo) -> int {
    info.sample_rate as int * (info.bits_per_sample as int / 8) * info.channels as int
}

/// The block alignment that a format chunk declares: the bytes per second
/// divided by the sample rate, cut to 16 bits.
pub open spec fn spec_block_align(info: AudioInfo) -> int {
    spec_bytes_per_sec(info) / (info.sample_rate as int) % 0x1_0000
}

/// Whether a format chunk can be written for `info`: the sample rate is
/// positive, and the bytes per second fit their field.
pub open spec fn writable(info: AudioInfo) -> bool {
    &&& info.sample_rate > 0
    &&& spec_bytes_per_sec(info) <= u32::MAX
}

/// The header: the two tags, and between them the overall size, left at
/// zero until it is known.
pub open spec fn spec_header() -> Seq<u8> {
    RIFF@ + spec_u32_le_bytes(0) + WAVE@
}

/// The five fields that every format chunk holds behind its tag.
pub open spec fn spec_fmt(info: AudioInfo) -> Seq<u8> {
    spec_u16_le_bytes(info.channels as int) + spec_u32_le_bytes(info.sample_rate as int)
        + spec_u32_le_bytes(spec_bytes_per_sec(info)) + spec_u16_le_bytes(spec_block_align(info))
        + spec_u16_le_bytes(info.bits_per_sample as int)
}

/// The plain PCM format chunk, from its size on: 16 bytes.
pub open spec fn spec_pcm_fmt(info: AudioInfo) -> Seq<u8> {
    spec_u32_le_bytes(16) + spec_u16_le_bytes(WAVE_FORMAT_PCM as int) + spec_fmt(info)
}

/// The channel mask of an extensible format chunk: the number of channels,
/// 18 at most.
pub open spec fn spec_channel_mask(info: AudioInfo) -> int {
    if info.channels > 18 {
        18
    } else {
        info.channels as int
    }
}

/// The extensible format chunk, from its size on: 40 bytes, of which the
/// last 24 are the extension.
pub open spec fn spec_pcm_ex_fmt(info: AudioInfo) -> Seq<u8> {
    spec_u32_le_bytes(40) + spec_u16_le_bytes(WAVE_FORMAT_EXTENSIBLE as int) + spec_fmt(info)
        + spec_u16_le_bytes(22) + spec_u16_le_bytes(info.bits_per_sample as int) + spec_u32_le_bytes(
        spec_channel_mask(info),
    ) + SUB_FORMAT_PCM@
}

/// The IEEE-float format chunk, from its size on: 18 bytes, of which the
/// last two are an extension size of zero.
pub open spec fn spec_ieee_float_fmt(info: AudioInfo) -> Seq<u8> {
    spec_u32_le_bytes(18) + spec_u16_le_bytes(WAVE_FORMAT_IEEE_FLOAT as int) + spec_fmt(info)
        + spec_u16_le_bytes(0)
}

/// The format chunk behind its identifier: IEEE float for floating-point
/// samples; for integer samples plain PCM up to two channels and the
/// extensible form beyond.
pub open spec fn spec_fmt_body(info: AudioInfo) -> Seq<u8> {
    match info.sample_type {
        Some(SampleType::FLOAT) => spec_ieee_float_fmt(info),
        _ => if info.channels > 2 {
            spec_pcm_ex_fmt(info)
        } else {
            spec_pcm_fmt(info)
        },
    }
}

/// The format chunk with its identifier.
pub open spec fn spec_fmt_chunk(info: AudioInfo) -> Seq<u8> {
    CK_FMT@ + spec_fmt_body(info)
}

/// All that stands before the samples: the header, the format chunk, the
/// identifier of the data chunk and its length, left at zero until it is
/// known.
pub open spec fn spec_preamble(info: AudioInfo) -> Seq<u8> {
    spec_header() + spec_fmt_chunk(info) + CK_DATA@ + spec_u32_le_bytes(0)
}

/// The offset of the length of the data chunk: behind the header of 12
/// bytes, the identifier and size of the format chunk in 8, the format chunk
/// of 18, 40 or 16, and the identifier of the data chunk in 4.
pub open spec fn spec_data_ck_size_position(info: AudioInfo) -> int {
    match info.sample_type {
        Some(SampleType::FLOAT) => 42,
        _ => if info.channels > 2 {
            64
        } else {
            40
        },
    }
}

/// The writer as contracts see it.
pub struct WriterState {
    pub sink: Sink,
    /// The bytes of samples written so far.
    pub data_bytes_written: int,
    /// The offset of the length of the data chunk.
    pub data_ck_size_position: int,
}

impl WriterState {
    /// The length field of the data chunk lies where one of the three format
    /// chunks puts it, and the overall size fits its field.
    pub open spec fn wf(self) -> bool {
        &&& self.data_ck_size_position == 40 || self.data_ck_size_position == 42
            || self.data_ck_size_position == 64
        &&& 0 <= self.data_bytes_written
        &&& self.data_bytes_written + self.data_ck_size_position - 4 <= u32::MAX
    }

    /// The overall size: the samples and what stands before the length of
    /// the data chunk, less the 4 bytes of the first tag.
    pub open spec fn file_size(self) -> int {
        self.data_bytes_written + self.data_ck_size_position - 4
    }

    /// The state once both size fields hold what is known now. The position
    /// is left behind the length of the data chunk.
    pub open spec fn patched(self) -> WriterState {
        WriterState {
            sink: self.sink.at(4).put(spec_u32_le_bytes(self.file_size())).at(
                self.data_ck_size_position,
            ).put(spec_u32_le_bytes(self.data_bytes_written)),
            ..self
        }
    }

    /// Whether one more sample of `bits_per_sample` bits leaves the overall
    /// size within its field.
    pub open spec fn has_room(self, bits_per_sample: u16) -> bool {
        self.data_bytes_written + bits_per_sample as int / 8 + self.data_ck_size_position - 4
            <= u32::MAX
    }
}

/// Writing the size fields a second time changes nothing.
pub proof fn lemma_patched_idempotent(s: WriterState)
    requires
        s.wf(),
    ensures
        s.patched().patched() == s.patched(),
{
    assert(s.patched().patched().sink.bytes =~= s.patched().sink.bytes);
}

/// A writer of one container into the sink `W`.
pub struct LgWavWriter<W: LgWriter> {
    writer: W,
    data_bytes_written: u32,
    data_ck_size_position: usize,
}

impl<W: LgWriter> View for LgWavWriter<W> {
    type V = WriterState;

    closed spec fn view(&self) -> WriterState {
        WriterState {
            sink: self.writer.sink(),
            data_bytes_written: self.data_bytes_written as int,
            data_ck_size_position: self.data_ck_size_position as int,
        }
    }
}

/// Whether a format chunk can be written for `info`.
pub fn is_writable(info: &AudioInfo) -> (r: bool)
    ensures
        r == writable(*info),
{
    if info.sample_rate == 0 {
        return false;
    }
    let bytes_per_sec: u64 = bytes_per_sec_of(info);
    bytes_per_sec <= 0xffff_ffff
}

/// The bytes per second of `info`, before they are held to their field.
fn bytes_per_sec_of(info: &AudioInfo) -> (r: u64)
    ensures
        r as int == spec_bytes_per_sec(*info),
{
    let bytes: u64 = (info.bits_per_sample / 8) as u64;
    let channels: u64 = info.channels as u64;
    assert(bytes * channels <= 0x1fff * 0xffff) by (nonlinear_arith)
        requires
            0 <= bytes <= 0x1fff,
            0 <= channels <= 0xffff,
    ;
    let per_frame: u64 = bytes * channels;
    assert(info.sample_rate as int * per_frame as int <= 0xffff_ffff * (0x1fff * 0xffff))
        by (nonlinear_arith)
        requires
            0 <= per_frame <= 0x1fff * 0xffff,
            0 <= info.sample_rate <= 0xffff_ffff,
    ;
    assert(info.sample_rate as int * ((info.bits_per_sample as int / 8) * info.channels as int)
        == spec_bytes_per_sec(*info)) by (nonlinear_arith);
    info.sample_rate as u64 * per_frame
}

impl<W: LgWriter> LgWavWriter<W> {
    /// Writes all that stands before the samples into `writer`, at its
    /// position.
    pub fn new(writer: W, info: &AudioInfo) -> (r: Result<Self, Error>)
        requires
            writable(*info),
        ensures
            r is Ok <==> writer.sink().admits(spec_preamble(*info).len() as int),
            r matches Ok(w) ==> w@.wf() && w@ == (WriterState {
                sink: writer.sink().put(spec_preamble(*info)),
                data_bytes_written: 0,
                data_ck_size_position: spec_data_ck_size_position(*info),
            }),
            r matches Err(e) ==> e@ == ErrorView::Io(IoError::InvalidInput),
    {
        let ghost s0 = writer.sink();
        proof {
            writer.lemma_position_in_range();
        }
        let mut result = LgWavWriter { writer, data_bytes_written: 0, data_ck_size_position: 0 };
        result.write_header()?;
        result.write_fmt_chunk(info)?;
        proof {
            lemma_put_put(s0, spec_header(), spec_fmt_chunk(*info));
        }
        lift(result.writer.write_bytes(CK_DATA.as_slice()))?;
        proof {
            lemma_put_put(s0, spec_header() + spec_fmt_chunk(*info), CK_DATA@);
        }
        lift(result.writer.write_le_u32(0))?;
        proof {
            lemma_put_put(s0, spec_header() + spec_fmt_chunk(*info) + CK_DATA@, spec_u32_le_bytes(0));
        }
        Ok(result)
    }

    /// The bytes of samples written so far.
    pub fn data_bytes_written(&self) -> (n: u32)
        ensures
            n as int == self@.data_bytes_written,
    {
        self.data_bytes_written
    }

    /// The sink, as it stands.
    pub fn get_ref(&self) -> (w: &W)
        ensures
            w.sink() == self@.sink,
    {
        &self.writer
    }

    /// Gives up the writer for its sink, as it stands.
    pub fn into_inner(self) -> (w: W)
        ensures
            w.sink() == self@.sink,
    {
        self.writer
    }

    /// Whether one more sample of `bits_per_sample` bits leaves the overall
    /// size within its field.
    pub fn has_room(&self, bits_per_sample: u16) -> (r: bool)
        requires
            self@.wf(),
        ensures
            r == self@.has_room(bits_per_sample),
    {
        self.data_bytes_written as u64 + (bits_per_sample / 8) as u64
            + self.data_ck_size_position as u64 - 4 <= 0xffff_ffff
    }

    /// Writes one sample at the position of the sink and counts its bytes.
    /// A sample that the codec takes needs room in the size fields.
    ///
    /// Where the codec or the sink refuses, nothing is written or counted.
    pub fn write_sample(&mut self, sample: WireSample, sample_type: SampleType, bits_per_sample: u16) -> (r:
        Result<(), Error>)
        requires
            old(self)@.wf(),
            spec_encode(sample, sample_type, bits_per_sample) is Some ==> old(self)@.has_room(
                bits_per_sample,
            ),
        ensures
            final(self)@.wf(),
            match spec_encode(sample, sample_type, bits_per_sample) {
                None => {
                    &&& r matches Err(e) && e@ == ErrorView::Conversion(
                        spec_unsupported(sample_type, bits_per_sample),
                    )
                    &&& final(self)@ == old(self)@
                },
                Some(bytes) => if old(self)@.sink.admits(bytes.len() as int) {
                    &&& r is Ok
                    &&& final(self)@ == (WriterState {
                        sink: old(self)@.sink.put(bytes),
                        data_bytes_written: old(self)@.data_bytes_written + bits_per_sample as int
                            / 8,
                        ..old(self)@
                    })
                } else {
                    &&& r matches Err(e) && e@ == ErrorView::Io(IoError::InvalidInput)
                    &&& final(self)@ == old(self)@
                },
            },
    {
        sample.write(&mut self.writer, sample_type, bits_per_sample)?;
        self.data_bytes_written += bits_per_sample as u32 / 8;
        Ok(())
    }

    /// Writes both size fields, hands on what was written, and moves back
    /// to the position held before.
    pub fn flush(&mut self) -> (r: Result<(), Error>)
        requires
            old(self)@.wf(),
        ensures
            r is Ok,
            final(self)@ == (WriterState {
                sink: old(self)@.patched().sink.at(old(self)@.sink.position),
                ..old(self)@
            }),
    {
        let current_pos = lift(self.writer.stream_position())?;
        self.update_headers()?;
        lift(self.writer.flush())?;
        lift(self.writer.go_to(current_pos))?;
        Ok(())
    }

    /// Writes both size fields and hands on what was written. The position
    /// stays behind the length of the data chunk.
    pub fn finish(&mut self) -> (r: Result<(), Error>)
        requires
            old(self)@.wf(),
        ensures
            r is Ok,
            final(self)@ == old(self)@.patched(),
    {
        self.update_headers()?;
        lift(self.writer.flush())?;
        Ok(())
    }

    /// Writes the header, with an overall size of zero; all of it or, where
    /// the sink has no room for all of it, nothing.
    pub fn write_header(&mut self) -> (r: Result<(), Error>)
        ensures
            r is Ok <==> old(self)@.sink.admits(spec_header().len() as int),
            r is Ok ==> final(self)@ == (WriterState {
                sink: old(self)@.sink.put(spec_header()),
                ..old(self)@
            }),
            r matches Err(e) ==> e@ == ErrorView::Io(IoError::InvalidInput) && final(self)@ == old(self)@,
    {
        let ghost s0 = self.writer.sink();
        proof {
            self.writer.lemma_position_in_range();
        }
        self.ensure_room(12)?;
        lift(self.writer.write_bytes(RIFF.as_slice()))?;
        // The overall size, at offset 4; it is known later.
        lift(self.writer.write_le_u32(0))?;
        proof {
            lemma_put_put(s0, RIFF@, spec_u32_le_bytes(0));
        }
        lift(self.writer.write_bytes(WAVE.as_slice()))?;
        proof {
            lemma_put_put(s0, RIFF@ + spec_u32_le_bytes(0), WAVE@);
        }
        Ok(())
    }

    /// Writes the format chunk that fits `info`, and keeps where the length
    /// of the data chunk will stand; where the sink has no room for the whole
    /// chunk, nothing is written or kept.
    pub fn write_fmt_chunk(&mut self, info: &AudioInfo) -> (r: Result<(), Error>)
        requires
            writable(*info),
        ensures
            r is Ok <==> old(self)@.sink.admits(spec_fmt_chunk(*info).len() as int),
            r is Ok ==> final(self)@ == (WriterState {
                sink: old(self)@.sink.put(spec_fmt_chunk(*info)),
                data_ck_size_position: spec_data_ck_size_position(*info),
                ..old(self)@
            }),
            r matches Err(e) ==> e@ == ErrorView::Io(IoError::InvalidInput) && final(self)@ == old(self)@,
    {
        let ghost s0 = self.writer.sink();
        proof {
            self.writer.lemma_position_in_range();
        }
        let room: usize = match info.sample_type {
            Some(SampleType::FLOAT) => 4 + 22,
            _ => if info.channels > 2 {
                4 + 44
            } else {
                4 + 20
            },
        };
        proof {
            assert(spec_fmt(*info).len() == 14);
        }
        self.ensure_room(room)?;
        lift(self.writer.write_bytes(CK_FMT.as_slice()))?;
        let r = match info.sample_type {
            Some(SampleType::FLOAT) => self.write_check_ieee_float_fmt(info),
            _ => if info.channels > 2 {
                self.write_check_pcm_ex_fmt(info)
            } else {
                self.write_check_pcm_fmt(info)
            },
        };
        proof {
            lemma_put_put(s0, CK_FMT@, spec_fmt_body(*info));
        }
        r
    }

    /// Writes the plain PCM format chunk from its size on, whole or not at
    /// all.
    pub fn write_check_pcm_fmt(&mut self, info: &AudioInfo) -> (r: Result<(), Error>)
        requires
            writable(*info),
        ensures
            r is Ok <==> old(self)@.sink.admits(spec_pcm_fmt(*info).len() as int),
            r is Ok ==> final(self)@ == (WriterState {
                sink: old(self)@.sink.put(spec_pcm_fmt(*info)),
                data_ck_size_position: 40,
                ..old(self)@
            }),
            r matches Err(e) ==> e@ == ErrorView::Io(IoError::InvalidInput) && final(self)@ == old(self)@,
    {
        let ghost s0 = self.writer.sink();
        proof {
            self.writer.lemma_position_in_range();
        }
        proof {
            assert(spec_fmt(*info).len() == 14);
        }
        self.ensure_room(20)?;
        // The header, the identifier and size of this chunk, the chunk, and
        // the identifier of the data chunk.
        self.data_ck_size_position = 12 + 8 + 16 + 4;
        lift(self.writer.write_le_u32(16))?;
        lift(self.writer.write_le_u16(WAVE_FORMAT_PCM))?;
        proof {
            lemma_put_put(s0, spec_u32_le_bytes(16), spec_u16_le_bytes(WAVE_FORMAT_PCM as int));
        }
        let r = self.write_fmt(info);
        proof {
            lemma_put_put(
                s0,
                spec_u32_le_bytes(16) + spec_u16_le_bytes(WAVE_FORMAT_PCM as int),
                spec_fmt(*info),
            );
        }
        r
    }

    /// Writes the extensible format chunk from its size on, whole or not at
    /// all.
    pub fn write_check_pcm_ex_fmt(&mut self, info: &AudioInfo) -> (r: Result<(), Error>)
        requires
            writable(*info),
        ensures
            r is Ok <==> old(self)@.sink.admits(spec_pcm_ex_fmt(*info).len() as int),
            r is Ok ==> final(self)@ == (WriterState {
                sink: old(self)@.sink.put(spec_pcm_ex_fmt(*info)),
                data_ck_size_position: 64,
                ..old(self)@
            }),
            r matches Err(e) ==> e@ == ErrorView::Io(IoError::InvalidInput) && final(self)@ == old(self)@,
    {
        let ghost s0 = self.writer.sink();
        proof {
            self.writer.lemma_position_in_range();
        }
        proof {
            assert(spec_fmt(*info).len() == 14);
        }
        self.ensure_room(44)?;
        self.data_ck_size_position = 12 + 8 + 40 + 4;
        lift(self.writer.write_le_u32(40))?;
        lift(self.writer.write_le_u16(WAVE_FORMAT_EXTENSIBLE))?;
        let ghost a1 = spec_u32_le_bytes(40) + spec_u16_le_bytes(WAVE_FORMAT_EXTENSIBLE as int);
        proof {
            lemma_put_put(s0, spec_u32_le_bytes(40), spec_u16_le_bytes(WAVE_FORMAT_EXTENSIBLE as int));
        }
        self.write_fmt(info)?;
        let ghost a2 = a1 + spec_fmt(*info);
        proof {
            lemma_put_put(s0, a1, spec_fmt(*info));
        }
        // The size of the extension.
        lift(self.writer.write_le_u16(22))?;
        let ghost a3 = a2 + spec_u16_le_bytes(22);
        proof {
            lemma_put_put(s0, a2, spec_u16_le_bytes(22));
        }
        // The valid bits per sample.
        lift(self.writer.write_le_u16(info.bits_per_sample))?;
        let ghost a4 = a3 + spec_u16_le_bytes(info.bits_per_sample as int);
        proof {
            lemma_put_put(s0, a3, spec_u16_le_bytes(info.bits_per_sample as int));
        }
        // The channel mask.
        let channels = if info.channels > 18 {
            18
        } else {
            info.channels
        };
        lift(self.writer.write_le_u32(channels as u32))?;
        let ghost a5 = a4 + spec_u32_le_bytes(spec_channel_mask(*info));
        proof {
            lemma_put_put(s0, a4, spec_u32_le_bytes(spec_channel_mask(*info)));
        }
        lift(self.writer.write_bytes(SUB_FORMAT_PCM.as_slice()))?;
        proof {
            lemma_put_put(s0, a5, SUB_FORMAT_PCM@);
        }
        Ok(())
    }

    /// Writes the IEEE-float format chunk from its size on, whole or not at
    /// all.
    pub fn write_check_ieee_float_fmt(&mut self, info: &AudioInfo) -> (r: Result<(), Error>)
        requires
            writable(*info),
        ensures
            r is Ok <==> old(self)@.sink.admits(spec_ieee_float_fmt(*info).len() as int),
            r is Ok ==> final(self)@ == (WriterState {
                sink: old(self)@.sink.put(spec_ieee_float_fmt(*info)),
                data_ck_size_position: 42,
                ..old(self)@
            }),
            r matches Err(e) ==> e@ == ErrorView::Io(IoError::InvalidInput) && final(self)@ == old(self)@,
    {
        let ghost s0 = self.writer.sink();
        proof {
            self.writer.lemma_position_in_range();
        }
        proof {
            assert(spec_fmt(*info).len() == 14);
        }
        self.ensure_room(22)?;
        self.data_ck_size_position = 12 + 8 + 18 + 4;
        lift(self.writer.write_le_u32(18))?;
        lift(self.writer.write_le_u16(WAVE_FORMAT_IEEE_FLOAT))?;
        let ghost a1 = spec_u32_le_bytes(18) + spec_u16_le_bytes(WAVE_FORMAT_IEEE_FLOAT as int);
        proof {
            lemma_put_put(s0, spec_u32_le_bytes(18), spec_u16_le_bytes(WAVE_FORMAT_IEEE_FLOAT as int));
        }
        self.write_fmt(info)?;
        proof {
            lemma_put_put(s0, a1, spec_fmt(*info));
        }
        // The size of the extension.
        lift(self.writer.write_le_u16(0))?;
        proof {
            lemma_put_put(s0, a1 + spec_fmt(*info), spec_u16_le_bytes(0));
        }
        Ok(())
    }

    /// Writes the five fields that every format chunk holds behind its tag,
    /// all or none.
    pub fn write_fmt(&mut self, info: &AudioInfo) -> (r: Result<(), Error>)
        requires
            writable(*info),
        ensures
            r is Ok <==> old(self)@.sink.admits(spec_fmt(*info).len() as int),
            r is Ok ==> final(self)@ == (WriterState {
                sink: old(self)@.sink.put(spec_fmt(*info)),
                ..old(self)@
            }),
            r matches Err(e) ==> e@ == ErrorView::Io(IoError::InvalidInput) && final(self)@ == old(self)@,
    {
        let ghost s0 = self.writer.sink();
        proof {
            self.writer.lemma_position_in_range();
        }
        proof {
            assert(spec_fmt(*info).len() == 14);
        }
        self.ensure_room(14)?;
        lift(self.writer.write_le_u16(info.channels))?;
        lift(self.writer.write_le_u32(info.sample_rate))?;
        let ghost a1 = spec_u16_le_bytes(info.channels as int) + spec_u32_le_bytes(
            info.sample_rate as int,
        );
        proof {
            lemma_put_put(
                s0,
                spec_u16_le_bytes(info.channels as int),
                spec_u32_le_bytes(info.sample_rate as int),
            );
        }
        let bytes_per_sec: u32 = bytes_per_sec_of(info) as u32;
        lift(self.writer.write_le_u32(bytes_per_sec))?;
        let ghost a2 = a1 + spec_u32_le_bytes(spec_bytes_per_sec(*info));
        proof {
            lemma_put_put(s0, a1, spec_u32_le_bytes(spec_bytes_per_sec(*info)));
        }
        let block_align: u16 = (bytes_per_sec / info.sample_rate % 0x1_0000) as u16;
        lift(self.writer.write_le_u16(block_align))?;
        let ghost a3 = a2 + spec_u16_le_bytes(spec_block_align(*info));
        proof {
            lemma_put_put(s0, a2, spec_u16_le_bytes(spec_block_align(*info)));
        }
        lift(self.writer.write_le_u16(info.bits_per_sample))?;
        proof {
            lemma_put_put(s0, a3, spec_u16_le_bytes(info.bits_per_sample as int));
        }
        Ok(())
    }

    /// Finds out whether the sink takes `n` bytes more, and writes nothing.
    fn ensure_room(&mut self, n: usize) -> (r: Result<(), Error>)
        ensures
            final(self)@ == old(self)@,
            r is Ok <==> old(self)@.sink.admits(n as int),
            r matches Err(e) ==> e@ == ErrorView::Io(IoError::InvalidInput),
    {
        proof {
            self.writer.lemma_position_in_range();
        }
        let position = lift(self.writer.stream_position())?;
        if n > usize::MAX - position {
            return Err(Error::Io(IoError::InvalidInput));
        }
        Ok(())
    }

    /// Writes the overall size and the length of the data chunk, each at its
    /// offset.
    pub fn update_headers(&mut self) -> (r: Result<(), Error>)
        requires
            old(self)@.wf(),
        ensures
            r is Ok,
            final(self)@ == old(self)@.patched(),
    {
        let file_size: u32 = self.data_bytes_written + (self.data_ck_size_position as u32 - 4);
        lift(self.writer.go_to(RIFF_CK_SIZE_POSITION))?;
        lift(self.writer.write_le_u32(file_size))?;
        lift(self.writer.go_to(self.data_ck_size_position))?;
        lift(self.writer.write_le_u32(self.data_bytes_written))?;
        Ok(())
    }
}

} // verus!
