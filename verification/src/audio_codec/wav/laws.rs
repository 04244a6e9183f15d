//! What holds of the writer and the reader together: a container that was
//! written is read back as it was meant.

use vstd::prelude::*;
use crate::audio_codec::error::ErrorView;
use crate::audio_codec::sample::{
    lemma_sample_round_trip, spec_decode, spec_encode, spec_samples, spec_stored, spec_width,
    SampleType, WireSample,
};
use crate::audio_codec::wav::decoder::{spec_open, spec_scan, DecoderState};
use crate::audio_codec::wav::reader::{
    done, spec_read_fmt_chunk, spec_read_header, spec_read_next_chunk, ReaderState, CK_DATA,
    CK_FACT, CK_FMT, RIFF, WAVE,
};
use crate::audio_codec::wav::writer::{
    spec_block_align, spec_bytes_per_sec, spec_data_ck_size_position, spec_fmt, spec_fmt_body,
    spec_fmt_chunk, spec_header, spec_preamble, writable, WriterState,
};
use crate::audio_codec::wav::{
    WavChunks, WAVE_FORMAT_EXTENSIBLE, WAVE_FORMAT_IEEE_FLOAT, WAVE_FORMAT_PCM,
};
use crate::audio_codec::AudioInfo;
use crate::bytes::endian::{
    lemma_le_u16_at, lemma_le_u32_at, spec_le_u16, spec_le_u32, spec_u16_le_bytes,
    spec_u32_le_bytes,
};
use crate::reader::{lemma_after_after, Stream};
use crate::writer::{overwrite, Sink};

verus! {

/// The container that the writer leaves for `info` when `data` are the
/// bytes of its samples: the header with the overall size, the format chunk,
/// and the data chunk with its length.
#[verifier::opaque]
pub open spec fn spec_container(info: AudioInfo, data: Seq<u8>) -> Seq<u8> {
    RIFF@ + spec_u32_le_bytes(data.len() + spec_data_ck_size_position(info) - 4) + WAVE@
        + spec_fmt_chunk(info) + CK_DATA@ + spec_u32_le_bytes(data.len() as int) + data
}

/// A source that holds `bytes` and hands out all of them.
pub open spec fn whole(bytes: Seq<u8>) -> Stream {
    Stream { bytes, allowance: bytes.len() as int }
}

/// What the writer may be told so that the reader reads it back: at least
/// one channel, a depth of whole bytes, a known representation, and a format
/// chunk that can be written.
pub open spec fn round_trips(info: AudioInfo) -> bool {
    &&& info.wf()
    &&& info.sample_type is Some
    &&& writable(info)
}

/// The reader behind the header of a written container.
pub open spec fn behind_header(info: AudioInfo, data: Seq<u8>) -> ReaderState {
    ReaderState {
        stream: whole(spec_container(info, data)).after(12),
        max_size: data.len() + spec_data_ck_size_position(info) - 8,
        cursor: 0,
    }
}

/// The reader behind the format chunk of a written container.
pub open spec fn behind_fmt(info: AudioInfo, data: Seq<u8>) -> ReaderState {
    ReaderState {
        stream: whole(spec_container(info, data)).after(spec_data_ck_size_position(info) - 4),
        max_size: data.len() + spec_data_ck_size_position(info) - 8,
        cursor: spec_data_ck_size_position(info) - 16,
    }
}

/// The reader at the first sample of a written container.
pub open spec fn at_data(data: Seq<u8>) -> ReaderState {
    ReaderState { stream: whole(data), max_size: data.len() as int, cursor: 0 }
}

/// The block alignment lies within its field.
proof fn lemma_block_align_range(info: AudioInfo)
    requires
        writable(info),
    ensures
        0 <= spec_bytes_per_sec(info),
        0 <= spec_block_align(info) < 0x1_0000,
{
    assert(0 <= spec_bytes_per_sec(info)) by (nonlinear_arith)
        requires
            spec_bytes_per_sec(info) == info.sample_rate as int * (info.bits_per_sample as int / 8)
                * info.channels as int,
            0 <= info.sample_rate as int,
            0 <= info.bits_per_sample as int / 8,
            0 <= info.channels as int,
    ;
}

/// What a reader finds in the common fields that the writer wrote.
proof fn lemma_fmt_fields(info: AudioInfo, b: Seq<u8>, k: int)
    requires
        writable(info),
        0 <= k,
        k + 14 <= b.len(),
        b.subrange(k, k + 14) == spec_fmt(info),
    ensures
        spec_le_u16(b.skip(k)) == info.channels,
        spec_le_u32(b.skip(k + 2)) == info.sample_rate,
        spec_le_u16(b.skip(k + 12)) == info.bits_per_sample,
{
    lemma_block_align_range(info);
    let f = spec_fmt(info);
    assert(f.len() == 14);
    assert(b.subrange(k, k + 2) =~= f.subrange(0, 2));
    assert(f.subrange(0, 2) =~= spec_u16_le_bytes(info.channels as int));
    assert(b.subrange(k + 2, k + 6) =~= f.subrange(2, 6));
    assert(f.subrange(2, 6) =~= spec_u32_le_bytes(info.sample_rate as int));
    assert(b.subrange(k + 12, k + 14) =~= f.subrange(12, 14));
    assert(f.subrange(12, 14) =~= spec_u16_le_bytes(info.bits_per_sample as int));
    lemma_le_u16_at(b, k, info.channels as int);
    lemma_le_u32_at(b, k + 2, info.sample_rate as int);
    lemma_le_u16_at(b, k + 12, info.bits_per_sample as int);
}

/// A reader that stands behind the identifier of a format chunk which the
/// writer wrote reads from it what the writer was told, and comes to stand
/// behind the chunk.
pub proof fn lemma_fmt_chunk_read_back(info: AudioInfo, s: ReaderState)
    requires
        info.wf(),
        info.sample_type is Some,
        writable(info),
        s.cursor + spec_fmt_body(info).len() <= s.max_size + 1,
        spec_fmt_body(info).len() <= s.stream.allowance <= s.stream.bytes.len(),
        s.stream.bytes.take(spec_fmt_body(info).len() as int) == spec_fmt_body(info),
    ensures
        spec_read_fmt_chunk(s) == done(info, s.after(spec_fmt_body(info).len() as int)),
{
    lemma_block_align_range(info);
    let body = spec_fmt_body(info);
    let b = s.stream.bytes;
    let n = body.len() as int;
    let ck_size = n - 4;
    let tag: int = match info.sample_type {
        Some(SampleType::FLOAT) => WAVE_FORMAT_IEEE_FLOAT as int,
        _ => if info.channels > 2 {
            WAVE_FORMAT_EXTENSIBLE as int
        } else {
            WAVE_FORMAT_PCM as int
        },
    };
    assert(spec_fmt(info).len() == 14);
    assert(ck_size == 16 || ck_size == 18 || ck_size == 40);
    assert(b.skip(0) =~= b);
    assert(b.subrange(0, 4) =~= body.subrange(0, 4));
    assert(body.subrange(0, 4) =~= spec_u32_le_bytes(ck_size));
    lemma_le_u32_at(b, 0, ck_size);
    assert(b.subrange(4, 6) =~= body.subrange(4, 6));
    assert(body.subrange(4, 6) =~= spec_u16_le_bytes(tag));
    lemma_le_u16_at(b, 4, tag);
    assert(b.subrange(6, 20) =~= body.subrange(6, 20));
    assert(body.subrange(6, 20) =~= spec_fmt(info));
    lemma_fmt_fields(info, b, 6);
    let b1 = b.skip(4);
    assert(b1.skip(2) =~= b.skip(6));
    assert(b1.skip(4) =~= b.skip(8));
    assert(b1.skip(14) =~= b.skip(18));
    lemma_after_after(s.stream, 4, 16);
    let s2 = s.after(4).after(16);
    assert(s2 == s.after(20));
    if ck_size == 18 {
        assert(b.subrange(20, 22) =~= body.subrange(20, 22));
        assert(body.subrange(20, 22) =~= spec_u16_le_bytes(0));
        lemma_le_u16_at(b, 20, 0);
        lemma_after_after(s.stream, 20, 2);
        assert(s2.after(2) == s.after(22));
    } else if ck_size == 40 {
        assert(b.subrange(20, 22) =~= body.subrange(20, 22));
        assert(body.subrange(20, 22) =~= spec_u16_le_bytes(22));
        lemma_le_u16_at(b, 20, 22);
        assert(b.subrange(22, 24) =~= body.subrange(22, 24));
        assert(body.subrange(22, 24) =~= spec_u16_le_bytes(info.bits_per_sample as int));
        lemma_le_u16_at(b, 22, info.bits_per_sample as int);
        assert(b.skip(20).skip(2) =~= b.skip(22));
        lemma_after_after(s.stream, 20, 2);
        lemma_after_after(s.stream, 22, 22);
        assert(s2.after(2).after(22) == s.after(44));
    }
}

/// Where each part of a written container stands.
proof fn lemma_container_layout(info: AudioInfo, data: Seq<u8>)
    ensures
        ({
            let c = spec_container(info, data);
            let pos = spec_data_ck_size_position(info);
            &&& pos == 40 || pos == 42 || pos == 64
            &&& spec_fmt_body(info).len() == pos - 20
            &&& c.len() == pos + 4 + data.len()
            &&& c.subrange(0, 4) == RIFF@
            &&& c.subrange(4, 8) == spec_u32_le_bytes(data.len() + pos - 4)
            &&& c.subrange(8, 12) == WAVE@
            &&& c.subrange(12, 16) == CK_FMT@
            &&& c.subrange(16, pos - 4) == spec_fmt_body(info)
            &&& c.subrange(pos - 4, pos) == CK_DATA@
            &&& c.subrange(pos, pos + 4) == spec_u32_le_bytes(data.len() as int)
            &&& c.skip(pos + 4) == data
        }),
{
    reveal(spec_container);
    let c = spec_container(info, data);
    let pos = spec_data_ck_size_position(info);
    let body = spec_fmt_body(info);
    assert(spec_fmt(info).len() == 14);
    assert(body.len() == pos - 20);
    let head = RIFF@ + spec_u32_le_bytes(data.len() + pos - 4) + WAVE@;
    assert(head.len() == 12);
    let upto_fmt = head + spec_fmt_chunk(info);
    assert(upto_fmt.len() == pos - 4);
    let upto_len = upto_fmt + CK_DATA@ + spec_u32_le_bytes(data.len() as int);
    assert(upto_len.len() == pos + 4);
    assert(c == upto_len + data);
    assert(c.subrange(0, 4) =~= RIFF@);
    assert(c.subrange(4, 8) =~= spec_u32_le_bytes(data.len() + pos - 4));
    assert(c.subrange(8, 12) =~= WAVE@);
    assert(c.subrange(12, 16) =~= CK_FMT@);
    assert(c.subrange(16, pos - 4) =~= body);
    assert(c.subrange(pos - 4, pos) =~= CK_DATA@);
    assert(c.subrange(pos, pos + 4) =~= spec_u32_le_bytes(data.len() as int));
    assert(c.skip(pos + 4) =~= data);
}

proof fn lemma_container_header(info: AudioInfo, data: Seq<u8>)
    requires
        round_trips(info),
        data.len() + spec_data_ck_size_position(info) - 4 <= u32::MAX,
    ensures
        spec_read_header(whole(spec_container(info, data))) == Ok::<ReaderState, ErrorView>(
            behind_header(info, data),
        ),
{
    lemma_container_layout(info, data);
    let c = spec_container(info, data);
    let file_size = data.len() + spec_data_ck_size_position(info) - 4;
    assert(c.take(4) =~= c.subrange(0, 4));
    lemma_le_u32_at(c, 4, file_size);
    assert(c.skip(8).take(4) =~= c.subrange(8, 12));
    lemma_after_after(whole(c), 4, 4);
    lemma_after_after(whole(c), 8, 4);
}

proof fn lemma_container_fmt(info: AudioInfo, data: Seq<u8>)
    requires
        round_trips(info),
        data.len() + spec_data_ck_size_position(info) - 4 <= u32::MAX,
    ensures
        spec_read_next_chunk(behind_header(info, data)) == done(
            WavChunks::Fmt(info),
            behind_fmt(info, data),
        ),
{
    lemma_container_layout(info, data);
    let c = spec_container(info, data);
    let pos = spec_data_ck_size_position(info);
    let r0 = behind_header(info, data);
    let body = spec_fmt_body(info);
    assert(r0.stream.bytes.take(4) =~= c.subrange(12, 16));
    let s = r0.after(4);
    lemma_after_after(whole(c), 12, 4);
    assert(s.stream == whole(c).after(16));
    assert(s.stream.bytes.take(body.len() as int) =~= c.subrange(16, pos - 4));
    lemma_fmt_chunk_read_back(info, s);
    lemma_after_after(whole(c), 16, body.len() as int);
    assert(s.after(body.len() as int) == behind_fmt(info, data));
}

proof fn lemma_container_data(info: AudioInfo, data: Seq<u8>)
    requires
        round_trips(info),
        data.len() + spec_data_ck_size_position(info) - 4 <= u32::MAX,
    ensures
        spec_read_next_chunk(behind_fmt(info, data)) == done(
            WavChunks::Data(data.len() as u32),
            at_data(data),
        ),
{
    lemma_container_layout(info, data);
    let c = spec_container(info, data);
    let r1 = behind_fmt(info, data);
    let pos = spec_data_ck_size_position(info);
    assert(r1.stream.bytes.take(4) =~= c.subrange(pos - 4, pos));
    assert(CK_DATA@[1] != CK_FMT@[1]);
    assert(CK_DATA@[0] != CK_FACT@[0]);
    lemma_after_after(whole(c), pos - 4, 4);
    assert(r1.after(4).stream == whole(c).after(pos));
    lemma_le_u32_at(c, pos, data.len() as int);
    lemma_after_after(whole(c), pos, 4);
    assert(r1.after(4).stream.after(4) == whole(data));
}

/// A container that the writer left is opened by the reader: the format it
/// declares is what the writer was told, the number of samples is the one
/// that was written, and the reader stands at the first sample, bounded by
/// the samples.
pub proof fn lemma_container_opens(info: AudioInfo, data: Seq<u8>)
    requires
        round_trips(info),
        data.len() + spec_data_ck_size_position(info) - 4 <= u32::MAX,
    ensures
        spec_open(whole(spec_container(info, data))) == Ok::<DecoderState, ErrorView>(
            DecoderState {
                info,
                sample_len: data.len() as int / info.spec_bytes_per_sample(),
                reader: at_data(data),
            },
        ),
{
    lemma_container_header(info, data);
    lemma_container_fmt(info, data);
    lemma_container_data(info, data);
    let r0 = behind_header(info, data);
    let r1 = behind_fmt(info, data);
    let d = DecoderState {
        info,
        sample_len: data.len() as int / info.spec_bytes_per_sample(),
        reader: at_data(data),
    };
    assert(spec_scan(r1, Some(info)) == Ok::<DecoderState, ErrorView>(d));
    assert(spec_scan(r0, None) == spec_scan(r1, Some(info)));
}

/// The bytes of `samples`, one sample after the other.
pub open spec fn spec_encode_all(samples: Seq<WireSample>, sample_type: SampleType, bits_per_sample: u16) -> Seq<
    u8,
>
    decreases samples.len(),
{
    if samples.len() == 0 {
        Seq::empty()
    } else {
        spec_encode(samples[0], sample_type, bits_per_sample)->0 + spec_encode_all(
            samples.skip(1),
            sample_type,
            bits_per_sample,
        )
    }
}

/// Whether the codec takes every one of `samples`.
pub open spec fn all_encodable(samples: Seq<WireSample>, sample_type: SampleType, bits_per_sample: u16) -> bool {
    forall|i: int|
        0 <= i < samples.len() ==> (#[trigger] spec_encode(samples[i], sample_type, bits_per_sample))
            is Some
}

/// The writer that was made for `info` on an empty sink and then took
/// `samples`, one after the other.
pub open spec fn spec_written(info: AudioInfo, samples: Seq<WireSample>) -> WriterState
    decreases samples.len(),
{
    if samples.len() == 0 {
        WriterState {
            sink: (Sink { bytes: Seq::empty(), position: 0 }).put(spec_preamble(info)),
            data_bytes_written: 0,
            data_ck_size_position: spec_data_ck_size_position(info),
        }
    } else {
        let before = spec_written(info, samples.drop_last());
        WriterState {
            sink: before.sink.put(
                spec_encode(samples.last(), info.spec_sample_type(), info.bits_per_sample)->0,
            ),
            data_bytes_written: before.data_bytes_written + info.spec_bytes_per_sample(),
            ..before
        }
    }
}

/// The bytes of samples grow at their end by the bytes of a sample more.
proof fn lemma_encode_all_push(
    samples: Seq<WireSample>,
    x: WireSample,
    sample_type: SampleType,
    bits_per_sample: u16,
)
    ensures
        spec_encode_all(samples.push(x), sample_type, bits_per_sample) == spec_encode_all(
            samples,
            sample_type,
            bits_per_sample,
        ) + spec_encode(x, sample_type, bits_per_sample)->0,
    decreases samples.len(),
{
    let e = spec_encode(x, sample_type, bits_per_sample)->0;
    if samples.len() == 0 {
        assert(samples.push(x).skip(1) =~= samples);
        assert(spec_encode_all(samples, sample_type, bits_per_sample) =~= Seq::<u8>::empty());
        assert(spec_encode_all(samples.push(x), sample_type, bits_per_sample) =~= e);
        assert(Seq::<u8>::empty() + e =~= e);
    } else {
        lemma_encode_all_push(samples.skip(1), x, sample_type, bits_per_sample);
        assert(samples.push(x).skip(1) =~= samples.skip(1).push(x));
        let first = spec_encode(samples[0], sample_type, bits_per_sample)->0;
        let rest = spec_encode_all(samples.skip(1), sample_type, bits_per_sample);
        assert(first + (rest + e) =~= (first + rest) + e);
    }
}

/// The length of the bytes of samples: as many times the bytes of one
/// sample as there are samples.
proof fn lemma_encode_all_len(samples: Seq<WireSample>, sample_type: SampleType, bits_per_sample: u16)
    requires
        all_encodable(samples, sample_type, bits_per_sample),
    ensures
        spec_encode_all(samples, sample_type, bits_per_sample).len() == samples.len() * (
        bits_per_sample as int / 8),
    decreases samples.len(),
{
    if samples.len() > 0 {
        let rest = samples.skip(1);
        assert forall|i: int| 0 <= i < rest.len() implies (#[trigger] spec_encode(
            rest[i],
            sample_type,
            bits_per_sample,
        )) is Some by {
            assert(rest[i] == samples[i + 1]);
        }
        lemma_encode_all_len(rest, sample_type, bits_per_sample);
        assert(spec_encode(samples[0], sample_type, bits_per_sample) is Some);
        lemma_sample_round_trip(samples[0], sample_type, bits_per_sample);
        assert(samples.len() * (bits_per_sample as int / 8) == rest.len() * (bits_per_sample as int
            / 8) + bits_per_sample as int / 8) by (nonlinear_arith)
            requires
                samples.len() == rest.len() + 1,
        ;
    } else {
        assert(samples.len() * (bits_per_sample as int / 8) == 0) by (nonlinear_arith)
            requires
                samples.len() == 0,
        ;
    }
}

/// Where each part of what stands before the samples is.
proof fn lemma_preamble_layout(info: AudioInfo)
    ensures
        ({
            let p = spec_preamble(info);
            let pos = spec_data_ck_size_position(info);
            &&& p.len() == pos + 4
            &&& p.subrange(0, 4) == RIFF@
            &&& p.subrange(8, 12) == WAVE@
            &&& p.subrange(12, 16) == CK_FMT@
            &&& p.subrange(16, pos - 4) == spec_fmt_body(info)
            &&& p.subrange(pos - 4, pos) == CK_DATA@
        }),
{
    let p = spec_preamble(info);
    let pos = spec_data_ck_size_position(info);
    let body = spec_fmt_body(info);
    assert(spec_fmt(info).len() == 14);
    assert(body.len() == pos - 20);
    assert(spec_header().len() == 12);
    let upto_fmt = spec_header() + spec_fmt_chunk(info);
    assert(upto_fmt.len() == pos - 4);
    assert(p.subrange(0, 4) =~= RIFF@);
    assert(p.subrange(8, 12) =~= WAVE@);
    assert(p.subrange(12, 16) =~= CK_FMT@);
    assert(p.subrange(16, pos - 4) =~= body);
    assert(p.subrange(pos - 4, pos) =~= CK_DATA@);
}

/// What stands before the samples, the samples, and both sizes written
/// into their fields make up the container.
proof fn lemma_patched_container(info: AudioInfo, data: Seq<u8>)
    ensures
        (WriterState {
            sink: Sink {
                bytes: spec_preamble(info) + data,
                position: (spec_preamble(info).len() + data.len()) as int,
            },
            data_bytes_written: data.len() as int,
            data_ck_size_position: spec_data_ck_size_position(info),
        }).patched().sink.bytes == spec_container(info, data),
{
    lemma_preamble_layout(info);
    lemma_container_layout(info, data);
    let p = spec_preamble(info);
    let pos = spec_data_ck_size_position(info);
    let c = spec_container(info, data);
    let file_size = data.len() + pos - 4;
    let once = overwrite(p + data, 4, spec_u32_le_bytes(file_size));
    let twice = overwrite(once, pos, spec_u32_le_bytes(data.len() as int));
    assert(twice.len() == c.len());
    assert forall|i: int| 0 <= i < c.len() implies twice[i] == c[i] by {
        if i < 4 {
            assert(c[i] == c.subrange(0, 4)[i]);
            assert(p[i] == p.subrange(0, 4)[i]);
        } else if i < 8 {
            assert(c[i] == c.subrange(4, 8)[i - 4]);
        } else if i < 12 {
            assert(c[i] == c.subrange(8, 12)[i - 8]);
            assert(p[i] == p.subrange(8, 12)[i - 8]);
        } else if i < 16 {
            assert(c[i] == c.subrange(12, 16)[i - 12]);
            assert(p[i] == p.subrange(12, 16)[i - 12]);
        } else if i < pos - 4 {
            assert(c[i] == c.subrange(16, pos - 4)[i - 16]);
            assert(p[i] == p.subrange(16, pos - 4)[i - 16]);
        } else if i < pos {
            assert(c[i] == c.subrange(pos - 4, pos)[i - (pos - 4)]);
            assert(p[i] == p.subrange(pos - 4, pos)[i - (pos - 4)]);
        } else if i < pos + 4 {
            assert(c[i] == c.subrange(pos, pos + 4)[i - pos]);
        } else {
            assert(c[i] == c.skip(pos + 4)[i - (pos + 4)]);
        }
    }
    assert(twice =~= c);
}

/// What the writer holds once it has taken `samples`.
proof fn lemma_written(info: AudioInfo, samples: Seq<WireSample>)
    requires
        all_encodable(samples, info.spec_sample_type(), info.bits_per_sample),
    ensures
        ({
            let data = spec_encode_all(samples, info.spec_sample_type(), info.bits_per_sample);
            spec_written(info, samples) == (WriterState {
                sink: Sink {
                    bytes: spec_preamble(info) + data,
                    position: (spec_preamble(info).len() + data.len()) as int,
                },
                data_bytes_written: data.len() as int,
                data_ck_size_position: spec_data_ck_size_position(info),
            })
        }),
    decreases samples.len(),
{
    let st = info.spec_sample_type();
    let bits = info.bits_per_sample;
    let p = spec_preamble(info);
    if samples.len() == 0 {
        assert(spec_encode_all(samples, st, bits) =~= Seq::<u8>::empty());
        assert(overwrite(Seq::<u8>::empty(), 0, p) =~= p + Seq::<u8>::empty());
    } else {
        let init = samples.drop_last();
        let x = samples.last();
        assert forall|i: int| 0 <= i < init.len() implies (#[trigger] spec_encode(init[i], st, bits))
            is Some by {
            assert(init[i] == samples[i]);
        }
        lemma_written(info, init);
        assert(init.push(x) =~= samples);
        lemma_encode_all_push(init, x, st, bits);
        assert(spec_encode(x, st, bits) is Some);
        lemma_sample_round_trip(x, st, bits);
        let before = spec_encode_all(init, st, bits);
        let e = spec_encode(x, st, bits)->0;
        assert(overwrite(p + before, (p.len() + before.len()) as int, e) =~= p + (before + e));
    }
}

/// A source that holds the bytes of samples, and no more, hands out what
/// was stored of each of them, in order.
pub proof fn lemma_samples_read_back(samples: Seq<WireSample>, sample_type: SampleType, bits_per_sample: u16)
    requires
        all_encodable(samples, sample_type, bits_per_sample),
    ensures
        spec_samples(
            whole(spec_encode_all(samples, sample_type, bits_per_sample)),
            sample_type,
            bits_per_sample,
        ) == samples.map_values(|x: WireSample| spec_stored(x, bits_per_sample)),
    decreases samples.len(),
{
    let data = spec_encode_all(samples, sample_type, bits_per_sample);
    let expected = samples.map_values(|x: WireSample| spec_stored(x, bits_per_sample));
    if samples.len() == 0 {
        assert(data =~= Seq::<u8>::empty());
        assert(spec_samples(whole(data), sample_type, bits_per_sample) =~= expected);
    } else {
        let rest = samples.skip(1);
        assert forall|i: int| 0 <= i < rest.len() implies (#[trigger] spec_encode(
            rest[i],
            sample_type,
            bits_per_sample,
        )) is Some by {
            assert(rest[i] == samples[i + 1]);
        }
        lemma_samples_read_back(rest, sample_type, bits_per_sample);
        assert(spec_encode(samples[0], sample_type, bits_per_sample) is Some);
        lemma_sample_round_trip(samples[0], sample_type, bits_per_sample);
        let e = spec_encode(samples[0], sample_type, bits_per_sample)->0;
        let tail = spec_encode_all(rest, sample_type, bits_per_sample);
        assert(data == e + tail);
        lemma_decode_prefix(e, tail, sample_type, bits_per_sample);
        assert(whole(data).after(e.len() as int) == whole(tail)) by {
            assert(data.skip(e.len() as int) =~= tail);
        }
        assert(seq![spec_stored(samples[0], bits_per_sample)] + rest.map_values(
            |x: WireSample| spec_stored(x, bits_per_sample),
        ) =~= expected);
    }
}

/// The sample that bytes store is read from as many of them as the sample
/// fills; what follows does not count.
proof fn lemma_decode_prefix(e: Seq<u8>, tail: Seq<u8>, sample_type: SampleType, bits_per_sample: u16)
    requires
        spec_width(sample_type, bits_per_sample) == Some(e.len() as int),
    ensures
        spec_decode(e + tail, sample_type, bits_per_sample) == spec_decode(
            e,
            sample_type,
            bits_per_sample,
        ),
{
    if e.len() == 8 {
        assert((e + tail).subrange(0, 4) =~= e.subrange(0, 4));
        assert((e + tail).subrange(4, 8) =~= e.subrange(4, 8));
    }
}

/// The format round trip. A container that was written for `info` on an
/// empty sink, with `samples` and both sizes in their fields, is opened by
/// the reader; the format it declares is `info`, it declares as many
/// samples as were written, and the samples read from it are what was stored
/// of those written, in order and no more.
pub proof fn lemma_format_round_trip(info: AudioInfo, samples: Seq<WireSample>)
    requires
        round_trips(info),
        all_encodable(samples, info.spec_sample_type(), info.bits_per_sample),
        samples.len() * info.spec_bytes_per_sample() + spec_data_ck_size_position(info) - 4
            <= u32::MAX,
    ensures
        spec_written(info, samples).wf(),
        spec_written(info, samples).data_bytes_written == samples.len()
            * info.spec_bytes_per_sample(),
        ({
            let container = spec_written(info, samples).patched().sink.bytes;
            &&& spec_open(whole(container)) matches Ok(d)
            &&& d.info == info
            &&& d.sample_len == samples.len()
            &&& spec_samples(d.reader.as_stream(), info.spec_sample_type(), info.bits_per_sample)
                == samples.map_values(|x: WireSample| spec_stored(x, info.bits_per_sample))
        }),
{
    let st = info.spec_sample_type();
    let bits = info.bits_per_sample;
    let data = spec_encode_all(samples, st, bits);
    let w = info.spec_bytes_per_sample();
    lemma_written(info, samples);
    lemma_encode_all_len(samples, st, bits);
    lemma_patched_container(info, data);
    lemma_container_opens(info, data);
    lemma_samples_read_back(samples, st, bits);
    assert(at_data(data).as_stream() == whole(data));
    assert((samples.len() * w) / w == samples.len()) by (nonlinear_arith)
        requires
            w > 0,
    ;
    assert(0 <= samples.len() * w) by (nonlinear_arith)
        requires
            w > 0,
    ;
}

} // verus!
