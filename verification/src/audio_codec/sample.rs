//! The sample codec: one sample to and from the bytes that store it.
//!
//! A sample is handled as it lies in the stream: an integer sample as a
//! 32-bit signed number, a floating-point sample as the bits of its IEEE 754
//! encoding.

use vstd::prelude::*;
use vstd::string::*;
use crate::audio_codec::error::{end_of_stream, lift, Error, ErrorView};
use crate::bytes::conversions::{spec_i8_to_u8, spec_u8_to_i8};
use crate::bytes::endian::{
    as_signed, as_unsigned, i32_to_i16_wrapping, i32_to_i8_wrapping, lemma_signed_unsigned,
    lemma_u16_le_round_trip, lemma_u24_le_round_trip, lemma_u32_le_round_trip,
    lemma_u64_le_round_trip, lemma_wrap_signed_range, spec_le_u16, spec_le_u24, spec_le_u32,
    spec_le_u64, spec_u16_le_bytes, spec_u24_le_bytes, spec_u32_le_bytes, spec_u64_le_bytes,
    wrap_signed,
};
use crate::io::IoError;
use crate::reader::{read_effect, LgReader, Stream};
use crate::text::{decimal, spec_decimal};
use crate::writer::{write_effect, LgWriter};

verus! {

/// How a sample is represented in the stream.
#[derive(Debug, Clone, Copy, PartialEq, Eq, Structural)]
pub enum SampleType {
    /// A signed integer, or a biased byte at a depth of 8 bits.
    INT,
    /// An IEEE 754 binary floating-point number.
    FLOAT,
}

/// One sample as it lies in the stream.
#[derive(Debug, Clone, Copy, PartialEq, Eq, Structural)]
pub enum WireSample {
    /// An integer sample, widened to 32 bits.
    Int(i32),
    /// The bits of a 32-bit floating-point sample.
    Float32(u32),
    /// The bits of a 64-bit floating-point sample.
    Float64(u64),
}

/// The number of bytes that one sample of the given representation and depth
/// fills, where a codec is defined for the pair.
pub open spec fn spec_width(sample_type: SampleType, bits_per_sample: u16) -> Option<int> {
    match sample_type {
        SampleType::INT => if bits_per_sample == 8 {
            Some(1)
        } else if bits_per_sample == 16 {
            Some(2)
        } else if bits_per_sample == 24 {
            Some(3)
        } else if bits_per_sample == 32 {
            Some(4)
        } else {
            None
        },
        SampleType::FLOAT => if bits_per_sample == 32 {
            Some(4)
        } else if bits_per_sample == 64 {
            Some(8)
        } else {
            None
        },
    }
}

/// The sample that the first bytes of `bytes` store. Integer samples of less
/// than 32 bits keep their value; those of 8 bits are stored with a bias.
pub open spec fn spec_decode(bytes: Seq<u8>, sample_type: SampleType, bits_per_sample: u16) -> WireSample {
    match sample_type {
        SampleType::INT => if bits_per_sample == 8 {
            WireSample::Int(spec_u8_to_i8(bytes[0]) as i32)
        } else if bits_per_sample == 16 {
            WireSample::Int(as_signed(spec_le_u16(bytes), 0x1_0000) as i32)
        } else if bits_per_sample == 24 {
            WireSample::Int(as_signed(spec_le_u24(bytes), 0x100_0000) as i32)
        } else {
            WireSample::Int(as_signed(spec_le_u32(bytes), 0x1_0000_0000) as i32)
        },
        SampleType::FLOAT => if bits_per_sample == 32 {
            WireSample::Float32(spec_le_u32(bytes) as u32)
        } else {
            WireSample::Float64(spec_le_u64(bytes) as u64)
        },
    }
}

/// The bytes that store `sample`, where a codec is defined for the pair and
/// the sample is of its representation. An integer sample keeps its low bits.
pub open spec fn spec_encode(sample: WireSample, sample_type: SampleType, bits_per_sample: u16) -> Option<
    Seq<u8>,
> {
    match (sample_type, sample) {
        (SampleType::INT, WireSample::Int(v)) => if bits_per_sample == 8 {
            Some(seq![spec_i8_to_u8(wrap_signed(v as int, 0x100) as i8)])
        } else if bits_per_sample == 16 {
            Some(spec_u16_le_bytes(as_unsigned(wrap_signed(v as int, 0x1_0000), 0x1_0000)))
        } else if bits_per_sample == 24 {
            Some(spec_u24_le_bytes(as_unsigned(v as int, 0x1_0000_0000)))
        } else if bits_per_sample == 32 {
            Some(spec_u32_le_bytes(as_unsigned(v as int, 0x1_0000_0000)))
        } else {
            None
        },
        (SampleType::FLOAT, WireSample::Float32(bits)) => if bits_per_sample == 32 {
            Some(spec_u32_le_bytes(bits as int))
        } else {
            None
        },
        (SampleType::FLOAT, WireSample::Float64(bits)) => if bits_per_sample == 64 {
            Some(spec_u64_le_bytes(bits as int))
        } else {
            None
        },
        _ => None,
    }
}

/// What is left of `sample` once it has been stored at the given depth: an
/// integer sample keeps its low bits, read as a signed number; the bits of a
/// floating-point sample stay as they are.
pub open spec fn spec_stored(sample: WireSample, bits_per_sample: u16) -> WireSample {
    match sample {
        WireSample::Int(v) => if bits_per_sample == 8 {
            WireSample::Int(wrap_signed(v as int, 0x100) as i32)
        } else if bits_per_sample == 16 {
            WireSample::Int(wrap_signed(v as int, 0x1_0000) as i32)
        } else if bits_per_sample == 24 {
            WireSample::Int(wrap_signed(v as int, 0x100_0000) as i32)
        } else {
            sample
        },
        _ => sample,
    }
}

/// The samples that a source will still hand out: one after the other, as
/// long as a whole sample can be read.
pub open spec fn spec_samples(s: Stream, sample_type: SampleType, bits_per_sample: u16) -> Seq<WireSample>
    decreases s.allowance,
{
    match spec_width(sample_type, bits_per_sample) {
        Some(w) => if s.admits(w) {
            seq![spec_decode(s.bytes, sample_type, bits_per_sample)] + spec_samples(
                s.after(w),
                sample_type,
                bits_per_sample,
            )
        } else {
            Seq::empty()
        },
        None => Seq::empty(),
    }
}

/// The name of a representation.
pub open spec fn spec_type_name(sample_type: SampleType) -> Seq<char> {
    match sample_type {
        SampleType::INT => "INT"@,
        SampleType::FLOAT => "FLOAT"@,
    }
}

/// The text that names a pair for which no codec is defined.
pub open spec fn spec_unsupported(sample_type: SampleType, bits_per_sample: u16) -> Seq<char> {
    spec_type_name(sample_type) + " with "@ + spec_decimal(bits_per_sample as nat)
        + " bits per sample is not supported!"@
}

/// The failure that names a pair for which no codec is defined.
pub fn unsupported(sample_type: SampleType, bits_per_sample: u16) -> (e: Error)
    ensures
        e@ == ErrorView::Conversion(spec_unsupported(sample_type, bits_per_sample)),
{
    let mut s = String::from_str(
        match sample_type {
            SampleType::INT => "INT",
            SampleType::FLOAT => "FLOAT",
        },
    );
    s.append(" with ");
    let digits = decimal(bits_per_sample);
    s.append(digits.as_str());
    s.append(" bits per sample is not supported!");
    Error::Conversion(s)
}

/// The number of bytes that one sample of the given representation and depth
/// fills, where a codec is defined for the pair.
pub fn width(sample_type: SampleType, bits_per_sample: u16) -> (w: Option<usize>)
    ensures
        w is Some <==> spec_width(sample_type, bits_per_sample) is Some,
        w matches Some(n) ==> spec_width(sample_type, bits_per_sample) == Some(n as int),
        w matches Some(n) ==> n as int == bits_per_sample as int / 8 && 1 <= n <= 8,
{
    match sample_type {
        SampleType::INT => if bits_per_sample == 8 {
            Some(1)
        } else if bits_per_sample == 16 {
            Some(2)
        } else if bits_per_sample == 24 {
            Some(3)
        } else if bits_per_sample == 32 {
            Some(4)
        } else {
            None
        },
        SampleType::FLOAT => if bits_per_sample == 32 {
            Some(4)
        } else if bits_per_sample == 64 {
            Some(8)
        } else {
            None
        },
    }
}

/// Whether the codec takes `sample` at the given representation and depth:
/// a codec is defined for the pair, and the sample is of the representation.
pub fn encodable(sample: WireSample, sample_type: SampleType, bits_per_sample: u16) -> (r: bool)
    ensures
        r == (spec_encode(sample, sample_type, bits_per_sample) is Some),
{
    match (sample_type, sample) {
        (SampleType::INT, WireSample::Int(_)) => bits_per_sample == 8 || bits_per_sample == 16
            || bits_per_sample == 24 || bits_per_sample == 32,
        (SampleType::FLOAT, WireSample::Float32(_)) => bits_per_sample == 32,
        (SampleType::FLOAT, WireSample::Float64(_)) => bits_per_sample == 64,
        _ => false,
    }
}

impl WireSample {
    /// Reads one sample of the given representation and depth.
    ///
    /// Where no codec is defined for the pair, nothing is read.
    pub fn read<R: LgReader>(reader: &mut R, sample_type: SampleType, bits_per_sample: u16) -> (r: Result<
        WireSample,
        Error,
    >)
        ensures
            match spec_width(sample_type, bits_per_sample) {
                None => {
                    &&& r matches Err(e) && e@ == ErrorView::Conversion(
                        spec_unsupported(sample_type, bits_per_sample),
                    )
                    &&& final(reader).stream() == old(reader).stream()
                },
                Some(w) => {
                    &&& read_effect(old(reader).stream(), final(reader).stream(), w, r is Ok)
                    &&& r matches Ok(v) ==> v == spec_decode(
                        old(reader).stream().bytes,
                        sample_type,
                        bits_per_sample,
                    )
                    &&& r matches Err(e) ==> e@ == end_of_stream()
                },
            },
    {
        match sample_type {
            SampleType::INT => if bits_per_sample == 8 {
                Ok(WireSample::Int(lift(reader.read_le_i8())? as i32))
            } else if bits_per_sample == 16 {
                Ok(WireSample::Int(lift(reader.read_le_i16())? as i32))
            } else if bits_per_sample == 24 {
                Ok(WireSample::Int(lift(reader.read_le_i32_24())?))
            } else if bits_per_sample == 32 {
                Ok(WireSample::Int(lift(reader.read_le_i32())?))
            } else {
                Err(unsupported(sample_type, bits_per_sample))
            },
            SampleType::FLOAT => if bits_per_sample == 32 {
                Ok(WireSample::Float32(lift(reader.read_le_u32())?))
            } else if bits_per_sample == 64 {
                Ok(WireSample::Float64(lift(reader.read_le_u64())?))
            } else {
                Err(unsupported(sample_type, bits_per_sample))
            },
        }
    }

    /// Writes the sample at the given representation and depth.
    ///
    /// Where no codec is defined for the pair, or the sample is not of the
    /// representation, nothing is written.
    pub fn write<W: LgWriter>(self, writer: &mut W, sample_type: SampleType, bits_per_sample: u16) -> (r:
        Result<(), Error>)
        ensures
            match spec_encode(self, sample_type, bits_per_sample) {
                None => {
                    &&& r matches Err(e) && e@ == ErrorView::Conversion(
                        spec_unsupported(sample_type, bits_per_sample),
                    )
                    &&& final(writer).sink() == old(writer).sink()
                },
                Some(bytes) => {
                    &&& write_effect(old(writer).sink(), final(writer).sink(), bytes, r is Ok)
                    &&& r matches Err(e) ==> e@ == ErrorView::Io(IoError::InvalidInput)
                },
            },
    {
        match (sample_type, self) {
            (SampleType::INT, WireSample::Int(v)) => if bits_per_sample == 8 {
                lift(writer.write_le_i8(i32_to_i8_wrapping(v)))?;
                Ok(())
            } else if bits_per_sample == 16 {
                lift(writer.write_le_i16(i32_to_i16_wrapping(v)))?;
                Ok(())
            } else if bits_per_sample == 24 {
                lift(writer.write_le_i32_24(v))
            } else if bits_per_sample == 32 {
                lift(writer.write_le_i32(v))?;
                Ok(())
            } else {
                Err(unsupported(sample_type, bits_per_sample))
            },
            (SampleType::FLOAT, WireSample::Float32(bits)) => if bits_per_sample == 32 {
                lift(writer.write_le_u32(bits))?;
                Ok(())
            } else {
                Err(unsupported(sample_type, bits_per_sample))
            },
            (SampleType::FLOAT, WireSample::Float64(bits)) => if bits_per_sample == 64 {
                lift(writer.write_le_u64(bits))?;
                Ok(())
            } else {
                Err(unsupported(sample_type, bits_per_sample))
            },
            _ => Err(unsupported(sample_type, bits_per_sample)),
        }
    }
}

/// A sample that was written is read back as what was stored of it: an
/// integer sample with its low bits, exactly where it fits the depth; the
/// bits of a floating-point sample unchanged.
pub proof fn lemma_sample_round_trip(sample: WireSample, sample_type: SampleType, bits_per_sample: u16)
    requires
        spec_encode(sample, sample_type, bits_per_sample) is Some,
    ensures
        spec_width(sample_type, bits_per_sample) == Some(
            spec_encode(sample, sample_type, bits_per_sample)->0.len() as int,
        ),
        spec_decode(
            spec_encode(sample, sample_type, bits_per_sample)->0,
            sample_type,
            bits_per_sample,
        ) == spec_stored(sample, bits_per_sample),
{
    match sample {
        WireSample::Int(v) => {
            let u = as_unsigned(v as int, 0x1_0000_0000);
            if bits_per_sample == 8 {
                lemma_wrap_signed_range(v as int, 0x100);
            } else if bits_per_sample == 16 {
                lemma_wrap_signed_range(v as int, 0x1_0000);
                let w = wrap_signed(v as int, 0x1_0000);
                lemma_signed_unsigned(w, 0x1_0000);
                lemma_u16_le_round_trip(as_unsigned(w, 0x1_0000));
            } else if bits_per_sample == 24 {
                lemma_wrap_signed_range(v as int, 0x100_0000);
                lemma_u24_le_round_trip(u);
                assert(u % 0x100_0000 == (v as int) % 0x100_0000);
            } else {
                lemma_signed_unsigned(v as int, 0x1_0000_0000);
                lemma_u32_le_round_trip(u);
            }
        },
        WireSample::Float32(bits) => {
            lemma_u32_le_round_trip(bits as int);
        },
        WireSample::Float64(bits) => {
            lemma_u64_le_round_trip(bits as int);
        },
    }
}

/// A sample within the range of the depth is stored whole.
pub proof fn lemma_stored_in_range(v: i32, bits_per_sample: u16)
    ensures
        bits_per_sample == 8 && -0x80 <= v < 0x80 ==> spec_stored(WireSample::Int(v), bits_per_sample)
            == WireSample::Int(v),
        bits_per_sample == 16 && -0x8000 <= v < 0x8000 ==> spec_stored(
            WireSample::Int(v),
            bits_per_sample,
        ) == WireSample::Int(v),
        bits_per_sample == 24 && -0x80_0000 <= v < 0x80_0000 ==> spec_stored(
            WireSample::Int(v),
            bits_per_sample,
        ) == WireSample::Int(v),
        bits_per_sample == 32 ==> spec_stored(WireSample::Int(v), bits_per_sample) == WireSample::Int(v),
{
    lemma_wrap_signed_range(v as int, 0x100);
    lemma_wrap_signed_range(v as int, 0x1_0000);
    lemma_wrap_signed_range(v as int, 0x100_0000);
}

} // verus!
