//! The container reader: header, chunks, and a cursor that keeps sample reads
//! within the declared length of the data.

use vstd::prelude::*;
use crate::audio_codec::error::{end_of_stream, lift, wrong_fmt_info, Error, ErrorView};
use crate::audio_codec::sample::SampleType;
use crate::audio_codec::wav::{WavChunks, WavFmtTag};
use crate::audio_codec::AudioInfo;
use crate::bytes::endian::{spec_le_u16, spec_le_u32, u16_from_le_bytes, u32_from_le_bytes};
use crate::io::IoError;
use crate::reader::{LgReader, Stream};

verus! {

/// The reader as contracts see it: what its source still has to give, the
/// length of the region it is bounded by, and the bytes counted within it.
pub struct ReaderState {
    pub stream: Stream,
    pub max_size: int,
    pub cursor: int,
}

impl ReaderState {
    /// Whether the cursor may pass over `n` more bytes. One byte beyond the
    /// region is tolerated.
    pub open spec fn within_bound(self, n: int) -> bool {
        self.cursor + n <= self.max_size + 1
    }

    /// Whether a read of `n` bytes succeeds.
    pub open spec fn admits(self, n: int) -> bool {
        self.within_bound(n) && self.stream.admits(n)
    }

    /// The state after a successful read of `n` bytes.
    pub open spec fn after(self, n: int) -> ReaderState {
        ReaderState { stream: self.stream.after(n), max_size: self.max_size, cursor: self.cursor + n }
    }

    /// The state seen as a plain byte source.
    pub open spec fn as_stream(self) -> Stream {
        Stream {
            bytes: self.stream.bytes,
            allowance: if self.stream.allowance <= self.max_size + 1 - self.cursor {
                self.stream.allowance
            } else {
                self.max_size + 1 - self.cursor
            },
        }
    }
}

/// The tag that opens a container.
pub const RIFF: [u8; 4] = [0x52, 0x49, 0x46, 0x46];

/// The tag that names the kind of container.
pub const WAVE: [u8; 4] = [0x57, 0x41, 0x56, 0x45];

/// The identifier of a format chunk, `"fmt "`.
pub const CK_FMT: [u8; 4] = [0x66, 0x6d, 0x74, 0x20];

/// The identifier of a `"fact"` chunk.
pub const CK_FACT: [u8; 4] = [0x66, 0x61, 0x63, 0x74];

/// The identifier of the `"data"` chunk.
pub const CK_DATA: [u8; 4] = [0x64, 0x61, 0x74, 0x61];

/// What a step of the reader comes to: what it gives or why it fails, and
/// the reader as the step leaves it. A step that fails leaves the reader
/// behind what it had read by then.
pub struct Step<T> {
    pub result: Result<T, ErrorView>,
    pub state: ReaderState,
}

/// The step that gives `value` and leaves `state`.
pub open spec fn done<T>(value: T, state: ReaderState) -> Step<T> {
    Step { result: Ok(value), state }
}

/// The step that fails with `error` and leaves `state`.
pub open spec fn refused<T>(error: ErrorView, state: ReaderState) -> Step<T> {
    Step { result: Err(error), state }
}

/// Whether a call that was to come to `expected` did: the value or the
/// failure, and the state the reader is left in.
pub open spec fn outcome<T>(r: Result<T, Error>, post: ReaderState, expected: Step<T>) -> bool {
    &&& post == expected.state
    &&& match expected.result {
        Ok(v) => r == Ok::<T, Error>(v),
        Err(e) => r matches Err(x) && x@ == e,
    }
}

/// What the header of a container holds: the two tags, and between them the
/// overall size, which counts the second tag too.
pub open spec fn spec_read_header(s: Stream) -> Result<ReaderState, ErrorView> {
    if !s.admits(4) {
        Err(end_of_stream())
    } else if s.bytes.take(4) != RIFF@ {
        Err(ErrorView::WrongHeader)
    } else if !s.after(4).admits(4) {
        Err(end_of_stream())
    } else if spec_le_u32(s.bytes.skip(4)) < 4 {
        Err(ErrorView::WrongHeader)
    } else if !s.after(8).admits(4) {
        Err(end_of_stream())
    } else if s.bytes.skip(8).take(4) != WAVE@ {
        Err(ErrorView::WrongHeader)
    } else {
        Ok(
            ReaderState {
                stream: s.after(12),
                max_size: spec_le_u32(s.bytes.skip(4)) - 4,
                cursor: 0,
            },
        )
    }
}

/// The representation that a format tag stands for: floating point for the
/// IEEE tag, integer for every other.
pub open spec fn spec_tag_sample_type(tag: WavFmtTag) -> SampleType {
    match tag {
        WavFmtTag::WAVE_FORMAT_IEEE_FLOAT => SampleType::FLOAT,
        _ => SampleType::INT,
    }
}

/// The checks that hold of every format chunk, whatever its tag.
pub open spec fn spec_check_fmt(fmt: AudioInfo) -> Result<(), ErrorView> {
    if fmt.channels == 0 {
        Err(ErrorView::WrongFmtInfo("fmt.channels must be > 0!"@))
    } else if fmt.bits_per_sample % 8 != 0 || fmt.bits_per_sample == 0 {
        Err(ErrorView::WrongFmtInfo("bits_per_sample must be non 0 and a multiple of 8!"@))
    } else {
        Ok(())
    }
}

/// What follows the common fields of a PCM format chunk: nothing where the
/// chunk has 16 bytes, else a 2-byte extension size, and then the depth must
/// be one that plain PCM can have. The depth is looked at behind the
/// extension size.
pub open spec fn spec_check_fmt_pcm(ck_size: int, fmt: AudioInfo, s: ReaderState) -> Step<()> {
    if ck_size == 16 {
        done((), s)
    } else if !s.admits(2) {
        refused(end_of_stream(), s)
    } else if fmt.bits_per_sample > 24 || fmt.bits_per_sample < 8 {
        refused(ErrorView::WrongFmtInfo("Invalid bits_per_sample for PCM format!"@), s.after(2))
    } else {
        done((), s.after(2))
    }
}

/// What follows the common fields of an IEEE-float format chunk: nothing
/// where the chunk has 16 bytes, else an extension size of zero, which ends
/// the chunk at 18 bytes. A chunk of another size is refused before
/// anything is read.
pub open spec fn spec_check_fmt_ieee_float(ck_size: int, s: ReaderState) -> Step<()> {
    if ck_size == 16 {
        done((), s)
    } else if ck_size != 18 {
        refused(ErrorView::WrongFmtInfo("IEEE_FLOAT does not alow for ck_size > 18!"@), s)
    } else if !s.admits(2) {
        refused(end_of_stream(), s)
    } else if spec_le_u16(s.stream.bytes) != 0 {
        refused(ErrorView::WrongFmtInfo("IEEE_FLOAT must have cb_size of 0!"@), s.after(2))
    } else {
        done((), s.after(2))
    }
}

/// What follows the common fields of an extensible format chunk: an
/// extension size of 22, the valid bits per sample, a channel mask of 4 bytes
/// and a sub-format of 16. Valid bits other than zero replace the declared
/// depth. A chunk of less than 40 bytes is refused before anything is read.
pub open spec fn spec_check_fmt_extensible(ck_size: int, fmt: AudioInfo, s: ReaderState) -> Step<
    AudioInfo,
> {
    if ck_size < 40 {
        refused(ErrorView::WrongFmtInfo("WAVE_FORMAT_EXTENSIBLE must have ck_size of 40!"@), s)
    } else if !s.admits(2) {
        refused(end_of_stream(), s)
    } else if spec_le_u16(s.stream.bytes) != 22 {
        refused(
            ErrorView::WrongFmtInfo("WAVE_FORMAT_EXTENSIBLE must have cb_size of 22!"@),
            s.after(2),
        )
    } else if !s.after(2).admits(22) {
        refused(end_of_stream(), s.after(2))
    } else {
        let valid_bits = spec_le_u16(s.stream.bytes.skip(2));
        done(
            if valid_bits > 0 {
                AudioInfo { bits_per_sample: valid_bits as u16, ..fmt }
            } else {
                fmt
            },
            s.after(2).after(22),
        )
    }
}

/// What follows the common fields of a format chunk, by its tag. A-law and
/// mu-law are known tags without a decoder, and any other tag is no format;
/// for these nothing is read.
pub open spec fn spec_check_fmt_tail(tag: WavFmtTag, ck_size: int, fmt: AudioInfo, s: ReaderState) -> Step<
    AudioInfo,
> {
    match tag {
        WavFmtTag::WAVE_FORMAT_PCM => Step {
            result: match spec_check_fmt_pcm(ck_size, fmt, s).result {
                Ok(_) => Ok(fmt),
                Err(e) => Err(e),
            },
            state: spec_check_fmt_pcm(ck_size, fmt, s).state,
        },
        WavFmtTag::WAVE_FORMAT_IEEE_FLOAT => Step {
            result: match spec_check_fmt_ieee_float(ck_size, s).result {
                Ok(_) => Ok(fmt),
                Err(e) => Err(e),
            },
            state: spec_check_fmt_ieee_float(ck_size, s).state,
        },
        WavFmtTag::WAVE_FORMAT_ALAW => refused(
            ErrorView::WrongFmtInfo("WAVE_FORMAT_ALAW is not supported!"@),
            s,
        ),
        WavFmtTag::WAVE_FORMAT_MULAW => refused(
            ErrorView::WrongFmtInfo("WAVE_FORMAT_MULAW is not supported!"@),
            s,
        ),
        WavFmtTag::WAVE_FORMAT_EXTENSIBLE => spec_check_fmt_extensible(ck_size, fmt, s),
        WavFmtTag::OTHER(_) => refused(ErrorView::WrongFmt, s),
    }
}

/// The size that a format chunk declares, read from behind its identifier.
pub open spec fn spec_fmt_ck_size(s: ReaderState) -> int {
    spec_le_u32(s.stream.bytes)
}

/// The tag of a format chunk: the first of its common fields.
pub open spec fn spec_fmt_tag(s: ReaderState) -> WavFmtTag {
    WavFmtTag::spec_from_code(spec_le_u16(s.stream.bytes.skip(4)) as u16)
}

/// What the common fields of a format chunk declare: the channels, the
/// sample rate and the depth; the bytes per second and the block alignment
/// between them are passed over. The tag gives the representation.
pub open spec fn spec_fmt_info(s: ReaderState) -> AudioInfo {
    let b = s.stream.bytes.skip(4);
    AudioInfo {
        channels: spec_le_u16(b.skip(2)) as u16,
        sample_rate: spec_le_u32(b.skip(4)) as u32,
        bits_per_sample: spec_le_u16(b.skip(14)) as u16,
        sample_type: Some(spec_tag_sample_type(spec_fmt_tag(s))),
    }
}

/// What a format chunk declares, read from behind its identifier: the chunk
/// size, which lies between 16 and 40, the six common fields in 16 bytes, and
/// what the tag asks for behind them. In the end the reader must stand
/// behind exactly as many bytes as the chunk declares, counted from behind
/// its size field: a format chunk that does not fill the size it declares is
/// broken.
pub open spec fn spec_read_fmt_chunk(s: ReaderState) -> Step<AudioInfo> {
    let ck_size = spec_fmt_ck_size(s);
    if !s.admits(4) {
        refused(end_of_stream(), s)
    } else if ck_size < 16 || ck_size > 40 {
        refused(ErrorView::WrongFmt, s.after(4))
    } else if !s.after(4).admits(16) {
        refused(end_of_stream(), s.after(4))
    } else if spec_check_fmt(spec_fmt_info(s)) is Err {
        refused(spec_check_fmt(spec_fmt_info(s))->Err_0, s.after(4).after(16))
    } else {
        let tail = spec_check_fmt_tail(
            spec_fmt_tag(s),
            ck_size,
            spec_fmt_info(s),
            s.after(4).after(16),
        );
        if tail.result is Ok && tail.state.cursor != s.cursor + 4 + ck_size {
            refused(ErrorView::WrongFmt, tail.state)
        } else {
            tail
        }
    }
}

/// A `fact` chunk, read from behind its identifier: its size, and as many
/// bytes as that, which are passed over.
pub open spec fn spec_read_fact_chunk(s: ReaderState) -> Step<()> {
    if !s.admits(4) {
        refused(end_of_stream(), s)
    } else if !s.after(4).admits(spec_le_u32(s.stream.bytes)) {
        refused(end_of_stream(), s.after(4))
    } else {
        done((), s.after(4).after(spec_le_u32(s.stream.bytes)))
    }
}

/// The next chunk. Behind the identifier of the data chunk stands its
/// length, and from there on that length is the bound, counted from zero.
/// An identifier that names no known chunk is refused behind its 4 bytes,
/// with the bound as it was.
pub open spec fn spec_read_next_chunk(s: ReaderState) -> Step<WavChunks> {
    if !s.admits(4) {
        refused(end_of_stream(), s)
    } else {
        let id = s.stream.bytes.take(4);
        let s1 = s.after(4);
        if id == CK_FMT@ {
            Step {
                result: match spec_read_fmt_chunk(s1).result {
                    Ok(info) => Ok(WavChunks::Fmt(info)),
                    Err(e) => Err(e),
                },
                state: spec_read_fmt_chunk(s1).state,
            }
        } else if id == CK_FACT@ {
            Step {
                result: match spec_read_fact_chunk(s1).result {
                    Ok(_) => Ok(WavChunks::Fact),
                    Err(e) => Err(e),
                },
                state: spec_read_fact_chunk(s1).state,
            }
        } else if id == CK_DATA@ {
            if !s1.admits(4) {
                refused(end_of_stream(), s1)
            } else {
                let len = spec_le_u32(s1.stream.bytes);
                done(
                    WavChunks::Data(len as u32),
                    ReaderState { stream: s1.stream.after(4), max_size: len, cursor: 0 },
                )
            }
        } else {
            refused(
                ErrorView::WrongFmtInfo(
                    "Currently do not support more chunks other than fmt and data!"@,
                ),
                s1,
            )
        }
    }
}

/// A container that does not open with the tag `RIFF` is refused for its
/// header, whatever stands behind the tag.
pub proof fn lemma_wrong_magic(s: Stream)
    requires
        s.admits(4),
        s.bytes.take(4) != RIFF@,
    ensures
        spec_read_header(s) == Err::<ReaderState, ErrorView>(ErrorView::WrongHeader),
{
}

/// A PCM format chunk of 16 bytes has nothing behind its common fields; one
/// of 18 bytes has the two bytes of its extension size there, and no more.
pub proof fn lemma_pcm_tail(fmt: AudioInfo, s: ReaderState)
    ensures
        spec_check_fmt_pcm(16, fmt, s) == done((), s),
        s.admits(2) && 8 <= fmt.bits_per_sample <= 24 ==> spec_check_fmt_pcm(18, fmt, s) == done(
            (),
            s.after(2),
        ),
{
}

/// An extensible format chunk of less than 40 bytes is refused before
/// anything of it is read, and the reason names the size that is asked for.
pub proof fn lemma_extensible_size(ck_size: int, fmt: AudioInfo, s: ReaderState)
    requires
        ck_size < 40,
    ensures
        spec_check_fmt_extensible(ck_size, fmt, s) == refused::<AudioInfo>(
            ErrorView::WrongFmtInfo("WAVE_FORMAT_EXTENSIBLE must have ck_size of 40!"@),
            s,
        ),
{
}

/// Of a PCM format chunk exactly the 16 bytes it declares are read, or
/// exactly the 18, of which the last two are the one field behind the common
/// ones.
pub proof fn lemma_pcm_chunk(s: ReaderState)
    requires
        s.admits(4),
        s.after(4).admits(16),
        spec_fmt_tag(s) == WavFmtTag::WAVE_FORMAT_PCM,
        spec_fmt_info(s).wf(),
    ensures
        spec_fmt_ck_size(s) == 16 ==> spec_read_fmt_chunk(s) == done(
            spec_fmt_info(s),
            s.after(4).after(16),
        ),
        spec_fmt_ck_size(s) == 18 && s.after(4).after(16).admits(2) && 8
            <= spec_fmt_info(s).bits_per_sample <= 24 ==> spec_read_fmt_chunk(s) == done(
            spec_fmt_info(s),
            s.after(4).after(16).after(2),
        ),
{
}

/// An extensible format chunk that declares less than 40 bytes is refused
/// once its common fields have passed their checks: the reason names the
/// size that is asked for, and nothing behind the common fields is read.
pub proof fn lemma_extensible_chunk_too_short(s: ReaderState)
    requires
        s.admits(4),
        16 <= spec_fmt_ck_size(s) < 40,
        s.after(4).admits(16),
        spec_fmt_tag(s) == WavFmtTag::WAVE_FORMAT_EXTENSIBLE,
        spec_fmt_info(s).wf(),
    ensures
        spec_read_fmt_chunk(s) == refused::<AudioInfo>(
            ErrorView::WrongFmtInfo("WAVE_FORMAT_EXTENSIBLE must have ck_size of 40!"@),
            s.after(4).after(16),
        ),
{
}

/// A format chunk that is read whole leaves the reader behind exactly the
/// bytes that the chunk declares, and the bound as it was.
pub proof fn lemma_fmt_chunk_lands(s: ReaderState)
    requires
        spec_read_fmt_chunk(s).result is Ok,
    ensures
        spec_read_fmt_chunk(s).state.cursor == s.cursor + 4 + spec_fmt_ck_size(s),
        spec_read_fmt_chunk(s).state.max_size == s.max_size,
{
}

/// A step that fails leaves the bound of the reader as it was.
pub proof fn lemma_refusal_keeps_bound(s: ReaderState)
    requires
        spec_read_next_chunk(s).result is Err,
    ensures
        spec_read_next_chunk(s).state.max_size == s.max_size,
{
}

/// A read that ends within the bounded region succeeds where the source has
/// the bytes; one that ends more than a byte beyond it fails, whatever the
/// source has. A read that ends exactly one byte beyond the region is let
/// through.
pub proof fn lemma_cursor_bound(s: ReaderState, n: int)
    ensures
        s.cursor + n <= s.max_size && s.stream.admits(n) ==> s.admits(n),
        s.cursor + n > s.max_size + 1 ==> !s.admits(n),
        s.cursor + n == s.max_size + 1 ==> s.admits(n) == s.stream.admits(n),
{
}

/// Whether `id` is the tag `tag`.
pub fn tag_is(id: &Vec<u8>, tag: [u8; 4]) -> (r: bool)
    ensures
        r == (id@ == tag@),
{
    if id.len() != 4 {
        return false;
    }
    let same = id[0] == tag[0] && id[1] == tag[1] && id[2] == tag[2] && id[3] == tag[3];
    proof {
        if same {
            assert(id@ =~= tag@);
        }
    }
    same
}

/// Checks what must hold of every format chunk: at least one channel, and a
/// depth that is a positive multiple of 8.
pub fn check_fmt(fmt: &AudioInfo) -> (r: Result<(), Error>)
    ensures
        r is Ok <==> fmt.wf(),
        match spec_check_fmt(*fmt) {
            Ok(_) => r is Ok,
            Err(e) => r matches Err(x) && x@ == e,
        },
{
    if fmt.channels == 0 {
        return Err(wrong_fmt_info("fmt.channels must be > 0!"));
    }
    if fmt.bits_per_sample % 8 != 0 || fmt.bits_per_sample == 0 {
        return Err(wrong_fmt_info("bits_per_sample must be non 0 and a multiple of 8!"));
    }
    Ok(())
}

/// A byte source bounded by the region that the container declares.
pub struct LgWavReader<R: LgReader> {
    reader: R,
    max_size: u32,
    cursor: u64,
}

impl<R: LgReader> View for LgWavReader<R> {
    type V = ReaderState;

    closed spec fn view(&self) -> ReaderState {
        ReaderState {
            stream: self.reader.stream(),
            max_size: self.max_size as int,
            cursor: self.cursor as int,
        }
    }
}

impl<R: LgReader> LgWavReader<R> {
    /// Checks the header and bounds the reader by the size it declares.
    pub fn new(reader: R) -> (r: Result<Self, Error>)
        ensures
            match spec_read_header(reader.stream()) {
                Ok(s) => r matches Ok(w) && w@ == s,
                Err(e) => r matches Err(x) && x@ == e,
            },
    {
        Self::read_header(reader)
    }

    /// Reads the 12 bytes of the header: the tag `RIFF`, the overall size and
    /// the tag `WAVE`. The size counts the second tag, which the bound that is
    /// kept does not.
    pub fn read_header(reader: R) -> (r: Result<Self, Error>)
        ensures
            match spec_read_header(reader.stream()) {
                Ok(s) => r matches Ok(w) && w@ == s,
                Err(e) => r matches Err(x) && x@ == e,
            },
    {
        let mut reader = reader;
        let ghost s0 = reader.stream();
        proof {
            reader.lemma_allowance_within_bytes();
        }
        let riff = lift(reader.read_next_bytes(4))?;
        if !tag_is(&riff, RIFF) {
            return Err(Error::WrongHeader);
        }
        let ck_size = lift(reader.read_le_u32())?;
        if ck_size < 4 {
            return Err(Error::WrongHeader);
        }
        assert(s0.after(4).after(4) == s0.after(8)) by {
            assert(s0.bytes.skip(4).skip(4) =~= s0.bytes.skip(8));
        }
        let wave = lift(reader.read_next_bytes(4))?;
        if !tag_is(&wave, WAVE) {
            return Err(Error::WrongHeader);
        }
        assert(s0.after(8).after(4) == s0.after(12)) by {
            assert(s0.bytes.skip(8).skip(4) =~= s0.bytes.skip(12));
        }
        Ok(LgWavReader { reader, max_size: ck_size - 4, cursor: 0 })
    }

    /// Reads the identifier of the next chunk and then the chunk it names.
    /// Any identifier but `"fmt "`, `"fact"` and `"data"` is refused.
    pub fn read_next_chunk(&mut self) -> (r: Result<WavChunks, Error>)
        ensures
            outcome(r, final(self)@, spec_read_next_chunk(old(self)@)),
    {
        let id = lift(self.read_next_bytes(4))?;
        if tag_is(&id, CK_FMT) {
            let info = self.read_fmt_chunk()?;
            Ok(WavChunks::Fmt(info))
        } else if tag_is(&id, CK_FACT) {
            self.read_fact_chunk()?;
            Ok(WavChunks::Fact)
        } else if tag_is(&id, CK_DATA) {
            let data_ck_size = lift(self.read_le_u32())?;
            self.max_size = data_ck_size;
            self.cursor = 0;
            Ok(WavChunks::Data(data_ck_size))
        } else {
            Err(wrong_fmt_info("Currently do not support more chunks other than fmt and data!"))
        }
    }

    /// Reads a format chunk from behind its identifier.
    pub fn read_fmt_chunk(&mut self) -> (r: Result<AudioInfo, Error>)
        ensures
            outcome(r, final(self)@, spec_read_fmt_chunk(old(self)@)),
            r matches Ok(info) ==> info.channels > 0,
    {
        proof {
            self.lemma_allowance_within_bytes();
        }
        let start: u64 = self.cursor;
        let ck_size = lift(self.read_le_u32())? as usize;
        if ck_size < 16 || ck_size > 40 {
            return Err(Error::WrongFmt);
        }
        let b = lift(self.read_next_bytes(16))?;
        let fmt_tag: WavFmtTag = u16_from_le_bytes([b[0], b[1]]).into();
        let channels = u16_from_le_bytes([b[2], b[3]]);
        let samples_per_sec = u32_from_le_bytes([b[4], b[5], b[6], b[7]]);
        let bits_per_sample = u16_from_le_bytes([b[14], b[15]]);
        let mut info = AudioInfo {
            channels,
            sample_rate: samples_per_sec,
            bits_per_sample,
            sample_type: Some(
                match fmt_tag {
                    WavFmtTag::WAVE_FORMAT_IEEE_FLOAT => SampleType::FLOAT,
                    _ => SampleType::INT,
                },
            ),
        };
        check_fmt(&info)?;
        match fmt_tag {
            WavFmtTag::WAVE_FORMAT_PCM => self.read_check_fmt_pcm(ck_size, &info)?,
            WavFmtTag::WAVE_FORMAT_IEEE_FLOAT => self.read_check_fmt_ieee_float(ck_size, &info)?,
            WavFmtTag::WAVE_FORMAT_ALAW => self.read_check_fmt_alaw(ck_size, &info)?,
            WavFmtTag::WAVE_FORMAT_MULAW => self.read_check_fmt_mulaw(ck_size, &info)?,
            WavFmtTag::WAVE_FORMAT_EXTENSIBLE => self.read_check_fmt_extensible(ck_size, &mut info)?,
            WavFmtTag::OTHER(_) => {
                return Err(Error::WrongFmt);
            },
        };
        // Behind the size field of 4 bytes stands the chunk, and no more of
        // it may have been read than it declares.
        if self.cursor - start != ck_size as u64 + 4 {
            return Err(Error::WrongFmt);
        }
        Ok(info)
    }

    /// Reads what a PCM format chunk holds behind the common fields.
    pub fn read_check_fmt_pcm(&mut self, ck_size: usize, fmt: &AudioInfo) -> (r: Result<(), Error>)
        ensures
            outcome(r, final(self)@, spec_check_fmt_pcm(ck_size as int, *fmt, old(self)@)),
    {
        // With 16 bytes the common fields are the whole chunk.
        if ck_size == 16 {
            return Ok(());
        }
        // The extension size.
        lift(self.skip_next_bytes(2))?;
        if fmt.bits_per_sample > 24 || fmt.bits_per_sample < 8 {
            return Err(wrong_fmt_info("Invalid bits_per_sample for PCM format!"));
        }
        Ok(())
    }

    /// Reads what an IEEE-float format chunk holds behind the common fields.
    pub fn read_check_fmt_ieee_float(&mut self, ck_size: usize, fmt: &AudioInfo) -> (r: Result<
        (),
        Error,
    >)
        ensures
            outcome(r, final(self)@, spec_check_fmt_ieee_float(ck_size as int, old(self)@)),
    {
        if ck_size == 16 {
            return Ok(());
        }
        if ck_size != 18 {
            return Err(wrong_fmt_info("IEEE_FLOAT does not alow for ck_size > 18!"));
        }
        // The extension size.
        if lift(self.read_le_u16())? != 0 {
            return Err(wrong_fmt_info("IEEE_FLOAT must have cb_size of 0!"));
        }
        Ok(())
    }

    /// Refuses an A-law format chunk: the tag is known, a decoder is not.
    pub fn read_check_fmt_alaw(&mut self, ck_size: usize, fmt: &AudioInfo) -> (r: Result<(), Error>)
        ensures
            r matches Err(x) && x@ == ErrorView::WrongFmtInfo("WAVE_FORMAT_ALAW is not supported!"@),
            final(self)@ == old(self)@,
    {
        Err(wrong_fmt_info("WAVE_FORMAT_ALAW is not supported!"))
    }

    /// Refuses a mu-law format chunk: the tag is known, a decoder is not.
    pub fn read_check_fmt_mulaw(&mut self, ck_size: usize, fmt: &AudioInfo) -> (r: Result<(), Error>)
        ensures
            r matches Err(x) && x@ == ErrorView::WrongFmtInfo("WAVE_FORMAT_MULAW is not supported!"@),
            final(self)@ == old(self)@,
    {
        Err(wrong_fmt_info("WAVE_FORMAT_MULAW is not supported!"))
    }

    /// Reads what an extensible format chunk holds behind the common fields,
    /// and lets valid bits other than zero replace the depth in `fmt`.
    pub fn read_check_fmt_extensible(&mut self, ck_size: usize, fmt: &mut AudioInfo) -> (r: Result<
        (),
        Error,
    >)
        ensures
            final(self)@ == spec_check_fmt_extensible(ck_size as int, *old(fmt), old(self)@).state,
            match spec_check_fmt_extensible(ck_size as int, *old(fmt), old(self)@).result {
                Ok(info) => r is Ok && *final(fmt) == info,
                Err(e) => r matches Err(x) && x@ == e && *final(fmt) == *old(fmt),
            },
    {
        proof {
            self.lemma_allowance_within_bytes();
        }
        if ck_size < 40 {
            return Err(wrong_fmt_info("WAVE_FORMAT_EXTENSIBLE must have ck_size of 40!"));
        }
        // The extension size.
        if lift(self.read_le_u16())? != 22 {
            return Err(wrong_fmt_info("WAVE_FORMAT_EXTENSIBLE must have cb_size of 22!"));
        }
        // The valid bits, the channel mask and the sub-format.
        let b = lift(self.read_next_bytes(22))?;
        let valid_bits_per_sample = u16_from_le_bytes([b[0], b[1]]);
        if valid_bits_per_sample > 0 {
            fmt.bits_per_sample = valid_bits_per_sample;
        }
        Ok(())
    }

    /// Reads a `fact` chunk from behind its identifier and passes over its
    /// content.
    pub fn read_fact_chunk(&mut self) -> (r: Result<(), Error>)
        ensures
            outcome(r, final(self)@, spec_read_fact_chunk(old(self)@)),
    {
        let ck_size = lift(self.read_le_u32())? as usize;
        lift(self.skip_next_bytes(ck_size))?;
        Ok(())
    }

    /// Counts `n` bytes against the bound, or fails and counts nothing.
    pub fn move_cursor(&mut self, n: usize) -> (r: Result<(), IoError>)
        ensures
            r is Ok <==> old(self)@.within_bound(n as int),
            r is Ok ==> final(self)@ == (ReaderState { cursor: old(self)@.cursor + n, ..old(self)@ }),
            r matches Err(e) ==> e == IoError::UnexpectedEof && final(self)@ == old(self)@,
    {
        let limit: u64 = self.max_size as u64 + 1;
        if self.cursor > limit || n as u64 > limit - self.cursor {
            return Err(IoError::UnexpectedEof);
        }
        self.cursor += n as u64;
        Ok(())
    }

    /// Takes back the count of `n` bytes where the source did not have them,
    /// so that a read that fails leaves the reader as it was.
    fn settle<T>(&mut self, n: usize, r: Result<T, IoError>) -> (out: Result<T, IoError>)
        requires
            old(self)@.cursor >= n,
        ensures
            out == r,
            final(self)@ == (if r is Ok {
                old(self)@
            } else {
                ReaderState { cursor: old(self)@.cursor - n, ..old(self)@ }
            }),
    {
        match r {
            Ok(v) => Ok(v),
            Err(e) => {
                self.cursor = self.cursor - n as u64;
                Err(e)
            },
        }
    }
}

impl<R: LgReader> LgReader for LgWavReader<R> {
    open spec fn stream(&self) -> Stream {
        self@.as_stream()
    }

    proof fn lemma_allowance_within_bytes(&self) {
        self.reader.lemma_allowance_within_bytes();
    }

    fn read_into(&mut self, buffer: &mut Vec<u8>) -> (r: Result<(), IoError>)
        ensures
            r is Ok ==> final(self)@ == old(self)@.after(old(buffer)@.len() as int),
            r is Err ==> final(self)@ == old(self)@,
    {
        let n: usize = buffer.len();
        self.move_cursor(n)?;
        let r = self.reader.read_into(buffer);
        self.settle(n, r)
    }

    fn read_next_bytes(&mut self, n: usize) -> (r: Result<Vec<u8>, IoError>)
        ensures
            r is Ok ==> final(self)@ == old(self)@.after(n as int),
            r is Err ==> final(self)@ == old(self)@,
    {
        self.move_cursor(n)?;
        let r = self.reader.read_next_bytes(n);
        self.settle(n, r)
    }

    fn skip_next_bytes(&mut self, n: usize) -> (r: Result<(), IoError>)
        ensures
            r is Ok ==> final(self)@ == old(self)@.after(n as int),
            r is Err ==> final(self)@ == old(self)@,
    {
        self.move_cursor(n)?;
        let r = self.reader.skip_next_bytes(n);
        self.settle(n, r)
    }

    fn read_exact_n(&mut self, n: usize) -> (r: Result<Vec<u8>, IoError>)
        ensures
            r is Ok ==> final(self)@ == old(self)@.after(n as int),
            r is Err ==> final(self)@ == old(self)@,
    {
        self.move_cursor(n)?;
        let r = self.reader.read_exact_n(n);
        self.settle(n, r)
    }

    fn read_u8(&mut self) -> (r: Result<u8, IoError>)
        ensures
            r is Ok ==> final(self)@ == old(self)@.after(1),
            r is Err ==> final(self)@ == old(self)@,
    {
        self.move_cursor(1)?;
        let r = self.reader.read_u8();
        self.settle(1, r)
    }

    fn read_le_u16(&mut self) -> (r: Result<u16, IoError>)
        ensures
            r is Ok ==> final(self)@ == old(self)@.after(2),
            r is Err ==> final(self)@ == old(self)@,
    {
        self.move_cursor(2)?;
        let r = self.reader.read_le_u16();
        self.settle(2, r)
    }

    fn read_le_u32(&mut self) -> (r: Result<u32, IoError>)
        ensures
            r is Ok ==> final(self)@ == old(self)@.after(4),
            r is Err ==> final(self)@ == old(self)@,
    {
        self.move_cursor(4)?;
        let r = self.reader.read_le_u32();
        self.settle(4, r)
    }

    fn read_le_u64(&mut self) -> (r: Result<u64, IoError>)
        ensures
            r is Ok ==> final(self)@ == old(self)@.after(8),
            r is Err ==> final(self)@ == old(self)@,
    {
        self.move_cursor(8)?;
        let r = self.reader.read_le_u64();
        self.settle(8, r)
    }

    fn read_le_i8(&mut self) -> (r: Result<i8, IoError>)
        ensures
            r is Ok ==> final(self)@ == old(self)@.after(1),
            r is Err ==> final(self)@ == old(self)@,
    {
        self.move_cursor(1)?;
        let r = self.reader.read_le_i8();
        self.settle(1, r)
    }

    fn read_le_i16(&mut self) -> (r: Result<i16, IoError>)
        ensures
            r is Ok ==> final(self)@ == old(self)@.after(2),
            r is Err ==> final(self)@ == old(self)@,
    {
        self.move_cursor(2)?;
        let r = self.reader.read_le_i16();
        self.settle(2, r)
    }

    fn read_le_i32(&mut self) -> (r: Result<i32, IoError>)
        ensures
            r is Ok ==> final(self)@ == old(self)@.after(4),
            r is Err ==> final(self)@ == old(self)@,
    {
        self.move_cursor(4)?;
        let r = self.reader.read_le_i32();
        self.settle(4, r)
    }

    fn read_le_i32_24(&mut self) -> (r: Result<i32, IoError>)
        ensures
            r is Ok ==> final(self)@ == old(self)@.after(3),
            r is Err ==> final(self)@ == old(self)@,
    {
        self.move_cursor(3)?;
        let r = self.reader.read_le_i32_24();
        self.settle(3, r)
    }
}

} // verus!
