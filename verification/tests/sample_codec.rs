use lg_codec::audio_codec::error::Error;
use lg_codec::audio_codec::sample::{encodable, unsupported, width, SampleType, WireSample};
use lg_codec::io::IoError;
use lg_codec::reader::ByteReader;
use lg_codec::text::{decimal, digit};
use lg_codec::writer::ByteWriter;

fn written(sample: WireSample, sample_type: SampleType, bits: u16) -> Vec<u8> {
    let mut w = ByteWriter::new();
    sample.write(&mut w, sample_type, bits).unwrap();
    w.into_inner()
}

fn read_back(sample: WireSample, sample_type: SampleType, bits: u16) -> WireSample {
    let mut r = ByteReader::new(written(sample, sample_type, bits));
    let v = WireSample::read(&mut r, sample_type, bits).unwrap();
    assert_eq!(r.position(), bits as usize / 8);
    v
}

#[test]
fn widths_of_the_supported_pairs() {
    assert_eq!(width(SampleType::INT, 8), Some(1));
    assert_eq!(width(SampleType::INT, 16), Some(2));
    assert_eq!(width(SampleType::INT, 24), Some(3));
    assert_eq!(width(SampleType::INT, 32), Some(4));
    assert_eq!(width(SampleType::FLOAT, 32), Some(4));
    assert_eq!(width(SampleType::FLOAT, 64), Some(8));
    assert_eq!(width(SampleType::INT, 0), None);
    assert_eq!(width(SampleType::INT, 64), None);
    assert_eq!(width(SampleType::INT, 12), None);
    assert_eq!(width(SampleType::FLOAT, 8), None);
    assert_eq!(width(SampleType::FLOAT, 16), None);
    assert_eq!(width(SampleType::FLOAT, 24), None);
}

#[test]
fn integer_samples_on_the_wire() {
    assert_eq!(written(WireSample::Int(0), SampleType::INT, 8), vec![128]);
    assert_eq!(written(WireSample::Int(-128), SampleType::INT, 8), vec![0]);
    assert_eq!(written(WireSample::Int(127), SampleType::INT, 8), vec![255]);
    assert_eq!(written(WireSample::Int(-1000), SampleType::INT, 16), vec![0x18, 0xfc]);
    assert_eq!(written(WireSample::Int(32767), SampleType::INT, 16), vec![0xff, 0x7f]);
    assert_eq!(written(WireSample::Int(-2), SampleType::INT, 24), vec![0xfe, 0xff, 0xff]);
    assert_eq!(written(WireSample::Int(0x12_3456), SampleType::INT, 24), vec![0x56, 0x34, 0x12]);
    assert_eq!(
        written(WireSample::Int(0x1234_5678), SampleType::INT, 32),
        vec![0x78, 0x56, 0x34, 0x12]
    );
}

#[test]
fn floating_point_samples_on_the_wire() {
    let half = 0.5f32.to_bits();
    assert_eq!(written(WireSample::Float32(half), SampleType::FLOAT, 32), 0.5f32.to_le_bytes());
    let third = (-1.0f64 / 3.0).to_bits();
    assert_eq!(
        written(WireSample::Float64(third), SampleType::FLOAT, 64),
        (-1.0f64 / 3.0).to_le_bytes()
    );
}

#[test]
fn integer_samples_from_the_wire() {
    let mut r = ByteReader::new(vec![0, 0x18, 0xfc, 0x00, 0x00, 0x80, 0xfe, 0xff, 0xff, 0xff]);
    assert_eq!(WireSample::read(&mut r, SampleType::INT, 8), Ok(WireSample::Int(-128)));
    assert_eq!(WireSample::read(&mut r, SampleType::INT, 16), Ok(WireSample::Int(-1000)));
    assert_eq!(WireSample::read(&mut r, SampleType::INT, 24), Ok(WireSample::Int(-8_388_608)));
    assert_eq!(WireSample::read(&mut r, SampleType::INT, 32), Ok(WireSample::Int(-2)));
    assert_eq!(
        WireSample::read(&mut r, SampleType::INT, 8),
        Err(Error::Io(IoError::UnexpectedEof))
    );
}

#[test]
fn floating_point_samples_from_the_wire() {
    let mut bytes = 0.25f32.to_le_bytes().to_vec();
    bytes.extend_from_slice(&(-2.5f64).to_le_bytes());
    let mut r = ByteReader::new(bytes);
    assert_eq!(
        WireSample::read(&mut r, SampleType::FLOAT, 32),
        Ok(WireSample::Float32(0.25f32.to_bits()))
    );
    assert_eq!(
        WireSample::read(&mut r, SampleType::FLOAT, 64),
        Ok(WireSample::Float64((-2.5f64).to_bits()))
    );
}

#[test]
fn a_sample_within_the_depth_is_read_back_exactly() {
    for v in [0, 1, -1, 127, -128] {
        assert_eq!(read_back(WireSample::Int(v), SampleType::INT, 8), WireSample::Int(v));
    }
    for v in [0, 1000, -1000, 32767, -32768] {
        assert_eq!(read_back(WireSample::Int(v), SampleType::INT, 16), WireSample::Int(v));
    }
    for v in [0, 100_000, -100_000, 8_388_607, -8_388_608] {
        assert_eq!(read_back(WireSample::Int(v), SampleType::INT, 24), WireSample::Int(v));
    }
    for v in [0, 1, -1, i32::MAX, i32::MIN, 123_456_789] {
        assert_eq!(read_back(WireSample::Int(v), SampleType::INT, 32), WireSample::Int(v));
    }
    for b in [0u32, 1, 0x3f80_0000, 0x7fc0_0000, 0xffff_ffff] {
        assert_eq!(read_back(WireSample::Float32(b), SampleType::FLOAT, 32), WireSample::Float32(b));
    }
    for b in [0u64, 1, 0x3ff0_0000_0000_0000, 0x7ff8_0000_0000_0001, u64::MAX] {
        assert_eq!(read_back(WireSample::Float64(b), SampleType::FLOAT, 64), WireSample::Float64(b));
    }
}

#[test]
fn a_sample_beyond_the_depth_keeps_its_low_bits() {
    assert_eq!(read_back(WireSample::Int(1000), SampleType::INT, 8), WireSample::Int(-24));
    assert_eq!(read_back(WireSample::Int(128), SampleType::INT, 8), WireSample::Int(-128));
    assert_eq!(read_back(WireSample::Int(32768), SampleType::INT, 16), WireSample::Int(-32768));
    assert_eq!(read_back(WireSample::Int(70000), SampleType::INT, 16), WireSample::Int(4464));
    assert_eq!(
        read_back(WireSample::Int(8_388_608), SampleType::INT, 24),
        WireSample::Int(-8_388_608)
    );
    assert_eq!(read_back(WireSample::Int(i32::MIN), SampleType::INT, 24), WireSample::Int(0));
}

#[test]
fn a_pair_without_codec_is_named_in_the_failure() {
    let mut r = ByteReader::new(vec![1, 2, 3, 4, 5, 6, 7, 8]);
    assert_eq!(
        WireSample::read(&mut r, SampleType::INT, 12),
        Err(Error::Conversion("INT with 12 bits per sample is not supported!".to_string()))
    );
    assert_eq!(
        WireSample::read(&mut r, SampleType::FLOAT, 16),
        Err(Error::Conversion("FLOAT with 16 bits per sample is not supported!".to_string()))
    );
    assert_eq!(
        WireSample::read(&mut r, SampleType::INT, 64),
        Err(Error::Conversion("INT with 64 bits per sample is not supported!".to_string()))
    );
    assert_eq!(r.position(), 0);
    let mut w = ByteWriter::new();
    assert_eq!(
        WireSample::Int(1).write(&mut w, SampleType::INT, 0),
        Err(Error::Conversion("INT with 0 bits per sample is not supported!".to_string()))
    );
    assert_eq!(
        WireSample::Float32(1).write(&mut w, SampleType::FLOAT, 65535),
        Err(Error::Conversion("FLOAT with 65535 bits per sample is not supported!".to_string()))
    );
    assert_eq!(w.into_inner(), vec![]);
}

#[test]
fn a_sample_of_another_representation_is_refused() {
    let mut w = ByteWriter::new();
    assert_eq!(
        WireSample::Float32(1).write(&mut w, SampleType::INT, 16),
        Err(Error::Conversion("INT with 16 bits per sample is not supported!".to_string()))
    );
    assert_eq!(
        WireSample::Int(1).write(&mut w, SampleType::FLOAT, 32),
        Err(Error::Conversion("FLOAT with 32 bits per sample is not supported!".to_string()))
    );
    assert_eq!(
        WireSample::Float64(1).write(&mut w, SampleType::FLOAT, 32),
        Err(Error::Conversion("FLOAT with 32 bits per sample is not supported!".to_string()))
    );
    assert_eq!(
        WireSample::Float32(1).write(&mut w, SampleType::FLOAT, 64),
        Err(Error::Conversion("FLOAT with 64 bits per sample is not supported!".to_string()))
    );
    assert_eq!(w.into_inner(), vec![]);
}

#[test]
fn what_the_codec_takes() {
    for bits in [8u16, 16, 24, 32] {
        assert!(encodable(WireSample::Int(-1), SampleType::INT, bits));
        assert!(!encodable(WireSample::Float32(0), SampleType::INT, bits));
        assert!(!encodable(WireSample::Float64(0), SampleType::INT, bits));
    }
    assert!(encodable(WireSample::Float32(0), SampleType::FLOAT, 32));
    assert!(encodable(WireSample::Float64(0), SampleType::FLOAT, 64));
    assert!(!encodable(WireSample::Float32(0), SampleType::FLOAT, 64));
    assert!(!encodable(WireSample::Float64(0), SampleType::FLOAT, 32));
    assert!(!encodable(WireSample::Int(0), SampleType::FLOAT, 32));
    assert!(!encodable(WireSample::Int(0), SampleType::INT, 12));
    assert!(!encodable(WireSample::Int(0), SampleType::INT, 64));
    assert!(!encodable(WireSample::Float32(0), SampleType::FLOAT, 16));
}

#[test]
fn the_failure_for_a_pair_has_its_text() {
    assert_eq!(
        unsupported(SampleType::FLOAT, 8),
        Error::Conversion("FLOAT with 8 bits per sample is not supported!".to_string())
    );
}

#[test]
fn numbers_as_text() {
    assert_eq!(digit(0), "0");
    assert_eq!(digit(9), "9");
    assert_eq!(decimal(0), "0");
    assert_eq!(decimal(7), "7");
    assert_eq!(decimal(10), "10");
    assert_eq!(decimal(24), "24");
    assert_eq!(decimal(100), "100");
    assert_eq!(decimal(9999), "9999");
    assert_eq!(decimal(65535), "65535");
    for n in [1u16, 12, 123, 1234, 12345, 40960] {
        assert_eq!(decimal(n), n.to_string());
    }
}
