use lg_codec::audio_codec::encoder::LgEncoder;
use lg_codec::audio_codec::error::Error;
use lg_codec::audio_codec::sample::{SampleType, WireSample};
use lg_codec::audio_codec::wav::encoder::LgWavEncoder;
use lg_codec::audio_codec::wav::writer::{is_writable, LgWavWriter};
use lg_codec::audio_codec::AudioInfo;
use lg_codec::io::IoError;
use lg_codec::writer::{ByteWriter, LgWriter};

fn info(channels: u16, rate: u32, bits: u16, sample_type: Option<SampleType>) -> AudioInfo {
    AudioInfo { channels, sample_rate: rate, bits_per_sample: bits, sample_type }
}

fn preamble(info: &AudioInfo) -> Vec<u8> {
    LgWavWriter::new(ByteWriter::new(), info).unwrap().into_inner().into_inner()
}

#[test]
fn the_plain_pcm_preamble() {
    let bytes = preamble(&info(2, 44100, 16, Some(SampleType::INT)));
    let mut expected = b"RIFF\0\0\0\0WAVEfmt ".to_vec();
    expected.extend_from_slice(&[16, 0, 0, 0]);
    expected.extend_from_slice(&[1, 0]);
    expected.extend_from_slice(&[2, 0]);
    expected.extend_from_slice(&[0x44, 0xac, 0, 0]);
    expected.extend_from_slice(&[0x10, 0xb1, 0x02, 0]);
    expected.extend_from_slice(&[4, 0]);
    expected.extend_from_slice(&[16, 0]);
    expected.extend_from_slice(b"data\0\0\0\0");
    assert_eq!(bytes, expected);
    assert_eq!(bytes.len(), 44);
}

#[test]
fn an_unknown_representation_is_written_as_integer() {
    assert_eq!(
        preamble(&info(1, 8000, 8, None)),
        preamble(&info(1, 8000, 8, Some(SampleType::INT)))
    );
    assert_eq!(
        preamble(&info(3, 8000, 8, None)),
        preamble(&info(3, 8000, 8, Some(SampleType::INT)))
    );
}

#[test]
fn the_extensible_preamble() {
    let bytes = preamble(&info(8, 48000, 24, Some(SampleType::INT)));
    let mut expected = b"RIFF\0\0\0\0WAVEfmt ".to_vec();
    expected.extend_from_slice(&[40, 0, 0, 0]);
    expected.extend_from_slice(&[0xfe, 0xff]);
    expected.extend_from_slice(&[8, 0]);
    expected.extend_from_slice(&48000u32.to_le_bytes());
    expected.extend_from_slice(&(48000u32 * 3 * 8).to_le_bytes());
    expected.extend_from_slice(&[24, 0]);
    expected.extend_from_slice(&[24, 0]);
    expected.extend_from_slice(&[22, 0]);
    expected.extend_from_slice(&[24, 0]);
    expected.extend_from_slice(&[8, 0, 0, 0]);
    expected.extend_from_slice(&[
        0x01, 0x00, 0x00, 0x00, 0x00, 0x00, 0x10, 0x00, 0x80, 0x00, 0x00, 0xaa, 0x00, 0x38, 0x9b,
        0x71,
    ]);
    expected.extend_from_slice(b"data\0\0\0\0");
    assert_eq!(bytes, expected);
    assert_eq!(bytes.len(), 68);
}

#[test]
fn the_channel_mask_stops_at_18() {
    let three = preamble(&info(3, 8000, 8, Some(SampleType::INT)));
    assert_eq!(&three[40..44], &[3, 0, 0, 0]);
    let eighteen = preamble(&info(18, 8000, 8, Some(SampleType::INT)));
    assert_eq!(&eighteen[40..44], &[18, 0, 0, 0]);
    let many = preamble(&info(19, 8000, 8, Some(SampleType::INT)));
    assert_eq!(&many[40..44], &[18, 0, 0, 0]);
    assert_eq!(&many[22..24], &[19, 0]);
}

#[test]
fn the_ieee_float_preamble() {
    for channels in [1u16, 2, 8] {
        let bytes = preamble(&info(channels, 96000, 32, Some(SampleType::FLOAT)));
        let mut expected = b"RIFF\0\0\0\0WAVEfmt ".to_vec();
        expected.extend_from_slice(&[18, 0, 0, 0]);
        expected.extend_from_slice(&[3, 0]);
        expected.extend_from_slice(&channels.to_le_bytes());
        expected.extend_from_slice(&96000u32.to_le_bytes());
        expected.extend_from_slice(&(96000u32 * 4 * channels as u32).to_le_bytes());
        expected.extend_from_slice(&(4 * channels).to_le_bytes());
        expected.extend_from_slice(&[32, 0]);
        expected.extend_from_slice(&[0, 0]);
        expected.extend_from_slice(b"data\0\0\0\0");
        assert_eq!(bytes, expected);
        assert_eq!(bytes.len(), 46);
    }
}

#[test]
fn the_block_alignment_is_cut_to_16_bits() {
    // 8191 bytes per sample and 9 channels: 73719 bytes per frame.
    let i = info(9, 1, 65528, Some(SampleType::INT));
    assert!(is_writable(&i));
    let bytes = preamble(&i);
    assert_eq!(&bytes[28..32], &73719u32.to_le_bytes());
    assert_eq!(&bytes[32..34], &((73719u32 % 65536) as u16).to_le_bytes());
}

#[test]
fn what_can_be_written() {
    assert!(is_writable(&info(2, 44100, 16, Some(SampleType::INT))));
    assert!(is_writable(&info(0, 44100, 16, None)));
    assert!(is_writable(&info(1, 1, 0, None)));
    assert!(is_writable(&info(1, u32::MAX, 8, None)));
    assert!(!is_writable(&info(2, 0, 16, Some(SampleType::INT))));
    assert!(!is_writable(&info(2, u32::MAX, 8, None)));
    assert!(is_writable(&info(65535, 65536, 8, None)));
    assert!(is_writable(&info(65535, 65537, 8, None)));
    assert!(!is_writable(&info(65535, 65538, 8, None)));
}

#[test]
fn the_preamble_goes_where_the_sink_stands() {
    let mut sink = ByteWriter::new();
    sink.write_bytes(&[9, 9]).unwrap();
    let w = LgWavWriter::new(sink, &info(1, 8000, 8, None)).unwrap();
    let bytes = w.into_inner().into_inner();
    assert_eq!(&bytes[..6], b"\x09\x09RIFF");
    assert_eq!(bytes.len(), 46);
}

#[test]
fn a_sink_at_its_last_offset_takes_no_preamble() {
    let mut sink = ByteWriter::new();
    sink.go_to(usize::MAX - 2).unwrap();
    assert_eq!(
        LgWavWriter::new(sink, &info(1, 8000, 8, None)).err(),
        Some(Error::Io(IoError::InvalidInput))
    );
    // Room for the first tag is not room for the header: nothing is written.
    let mut sink = ByteWriter::new();
    sink.go_to(usize::MAX - 11).unwrap();
    assert_eq!(
        LgWavWriter::new(sink, &info(1, 8000, 8, None)).err(),
        Some(Error::Io(IoError::InvalidInput))
    );
}

#[test]
fn finish_writes_both_sizes() {
    let mut w = LgWavWriter::new(ByteWriter::new(), &info(1, 8000, 16, None)).unwrap();
    for v in [1, 2, 3] {
        w.write_sample(WireSample::Int(v), SampleType::INT, 16).unwrap();
    }
    assert_eq!(w.data_bytes_written(), 6);
    assert!(w.has_room(16));
    assert_eq!(w.finish(), Ok(()));
    let mut sink = w.into_inner();
    assert_eq!(sink.stream_position(), Ok(44));
    let bytes = sink.into_inner();
    assert_eq!(bytes.len(), 50);
    assert_eq!(&bytes[4..8], &(6u32 + 40 - 4).to_le_bytes());
    assert_eq!(&bytes[40..44], &6u32.to_le_bytes());
    assert_eq!(&bytes[44..], &[1, 0, 2, 0, 3, 0]);
}

#[test]
fn finish_a_second_time_changes_nothing() {
    let mut w = LgWavWriter::new(ByteWriter::new(), &info(3, 8000, 16, None)).unwrap();
    w.write_sample(WireSample::Int(-1), SampleType::INT, 16).unwrap();
    w.finish().unwrap();
    let once = w.into_inner().into_inner();
    let mut w = LgWavWriter::new(ByteWriter::new(), &info(3, 8000, 16, None)).unwrap();
    w.write_sample(WireSample::Int(-1), SampleType::INT, 16).unwrap();
    w.finish().unwrap();
    w.finish().unwrap();
    let mut sink = w.into_inner();
    assert_eq!(sink.stream_position(), Ok(68));
    assert_eq!(sink.into_inner(), once);
    assert_eq!(&once[4..8], &(2u32 + 64 - 4).to_le_bytes());
    assert_eq!(&once[64..68], &2u32.to_le_bytes());
}

#[test]
fn flush_goes_back_to_where_writing_stood() {
    let float = info(2, 8000, 32, Some(SampleType::FLOAT));
    let mut w = LgWavWriter::new(ByteWriter::new(), &float).unwrap();
    w.write_sample(WireSample::Float32(0x3f80_0000), SampleType::FLOAT, 32).unwrap();
    assert_eq!(w.flush(), Ok(()));
    w.write_sample(WireSample::Float32(0xbf80_0000), SampleType::FLOAT, 32).unwrap();
    assert_eq!(w.flush(), Ok(()));
    let mut sink = w.into_inner();
    assert_eq!(sink.stream_position(), Ok(54));
    let bytes = sink.into_inner();
    assert_eq!(&bytes[4..8], &(8u32 + 42 - 4).to_le_bytes());
    assert_eq!(&bytes[42..46], &8u32.to_le_bytes());
    assert_eq!(&bytes[46..], &[0, 0, 0x80, 0x3f, 0, 0, 0x80, 0xbf]);
}

#[test]
fn a_refused_sample_is_not_counted() {
    let mut w = LgWavWriter::new(ByteWriter::new(), &info(1, 8000, 16, None)).unwrap();
    assert_eq!(
        w.write_sample(WireSample::Int(1), SampleType::INT, 12),
        Err(Error::Conversion("INT with 12 bits per sample is not supported!".to_string()))
    );
    assert_eq!(
        w.write_sample(WireSample::Float32(1), SampleType::INT, 16),
        Err(Error::Conversion("INT with 16 bits per sample is not supported!".to_string()))
    );
    assert_eq!(w.data_bytes_written(), 0);
    assert_eq!(w.into_inner().into_inner().len(), 44);
}

#[test]
fn a_sample_that_is_refused_needs_no_room() {
    let mut e = LgWavEncoder::new(ByteWriter::new(), info(1, 8000, 16, None)).unwrap();
    assert!(e.can_encode(WireSample::Int(1)));
    assert!(e.can_encode(WireSample::Float32(1)));
    assert!(e.can_encode(WireSample::Float64(1)));
    assert_eq!(
        e.encode_sample(WireSample::Float64(1)),
        Err(Error::Conversion("INT with 16 bits per sample is not supported!".to_string()))
    );
    assert_eq!(e.data_bytes_written(), 0);
    let odd = LgWavEncoder::new(ByteWriter::new(), info(1, 8000, 12, None)).unwrap();
    assert!(odd.can_encode(WireSample::Int(1)));
}

#[test]
fn the_encoder_counts_what_it_wrote() {
    let i = info(2, 4, 16, Some(SampleType::INT));
    let mut e = LgWavEncoder::new(ByteWriter::new(), i).unwrap();
    assert_eq!(e.info(), i);
    assert_eq!(e.len(), 0);
    for v in 0..20 {
        assert!(e.can_encode(WireSample::Int(v)));
        assert_eq!(e.encode_sample(WireSample::Int(v)), Ok(()));
    }
    assert_eq!(e.len(), 20);
    assert_eq!(e.duration(), 2);
    assert_eq!(e.encoded_samples(), 40 * 16);
    assert_eq!(e.flush(), Ok(()));
    assert_eq!(e.write(WireSample::Int(20)), Ok(()));
    assert_eq!(e.len(), 21);
    assert_eq!(
        e.encode_sample(WireSample::Float32(0)),
        Err(Error::Conversion("INT with 16 bits per sample is not supported!".to_string()))
    );
    assert_eq!(e.len(), 21);
    let bytes = e.finish().unwrap().into_inner();
    assert_eq!(bytes.len(), 44 + 42);
    assert_eq!(&bytes[40..44], &42u32.to_le_bytes());
    assert_eq!(&bytes[4..8], &(42u32 + 36).to_le_bytes());
}
