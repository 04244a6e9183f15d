use lg_codec::audio_codec::error::{lift, wrong_fmt_info, Error};
use lg_codec::audio_codec::sample::{SampleType, WireSample};
use lg_codec::audio_codec::wav::encoder::LgWavEncoder;
use lg_codec::audio_codec::wav::writer::LgWavWriter;
use lg_codec::audio_codec::AudioInfo;
use lg_codec::io::IoError;
use lg_codec::writer::ByteWriter;

#[test]
fn an_info_without_declarations() {
    let info = AudioInfo::default();
    assert_eq!(
        info,
        AudioInfo { channels: 0, sample_rate: 0, bits_per_sample: 0, sample_type: None }
    );
    assert_eq!(info.sample_type_or_int(), SampleType::INT);
    assert_eq!(info.bytes_per_sample(), 0);
}

#[test]
fn the_bytes_of_one_sample() {
    let mut info = AudioInfo {
        channels: 1,
        sample_rate: 8000,
        bits_per_sample: 24,
        sample_type: Some(SampleType::FLOAT),
    };
    assert_eq!(info.bytes_per_sample(), 3);
    assert_eq!(info.sample_type_or_int(), SampleType::FLOAT);
    info.bits_per_sample = 7;
    assert_eq!(info.bytes_per_sample(), 0);
    info.bits_per_sample = 65535;
    assert_eq!(info.bytes_per_sample(), 8191);
    info.sample_type = Some(SampleType::INT);
    assert_eq!(info.sample_type_or_int(), SampleType::INT);
}

#[test]
fn failures_of_sources_and_sinks_become_failures_of_the_codec() {
    assert_eq!(Error::from(IoError::UnexpectedEof), Error::Io(IoError::UnexpectedEof));
    assert_eq!(Error::from(IoError::InvalidInput), Error::Io(IoError::InvalidInput));
    assert_eq!(lift::<u8>(Ok(3)), Ok(3));
    assert_eq!(lift::<u8>(Err(IoError::UnexpectedEof)), Err(Error::Io(IoError::UnexpectedEof)));
    assert_eq!(lift::<()>(Err(IoError::InvalidInput)), Err(Error::Io(IoError::InvalidInput)));
}

#[test]
fn a_rejected_value_carries_its_reason() {
    assert_eq!(wrong_fmt_info("why"), Error::WrongFmtInfo("why".to_string()));
    assert_eq!(wrong_fmt_info(""), Error::WrongFmtInfo(String::new()));
}

#[test]
fn the_sink_can_be_looked_at_while_writing() {
    let info = AudioInfo {
        channels: 1,
        sample_rate: 8000,
        bits_per_sample: 8,
        sample_type: Some(SampleType::INT),
    };
    let mut w = LgWavWriter::new(ByteWriter::new(), &info).unwrap();
    assert_eq!(w.get_ref().as_slice().len(), 44);
    w.write_sample(WireSample::Int(1), SampleType::INT, 8).unwrap();
    assert_eq!(w.get_ref().as_slice().len(), 45);
    assert_eq!(w.get_ref().as_slice()[44], 129);
    let mut e = LgWavEncoder::new(ByteWriter::new(), info).unwrap();
    assert_eq!(e.data_bytes_written(), 0);
    e.write(WireSample::Int(-1)).unwrap();
    e.write(WireSample::Int(0)).unwrap();
    assert_eq!(e.data_bytes_written(), 2);
    assert_eq!(&e.get_ref().as_slice()[44..], &[127, 128]);
    // Nothing is in the size fields before a flush.
    assert_eq!(&e.get_ref().as_slice()[40..44], &[0, 0, 0, 0]);
    e.flush().unwrap();
    assert_eq!(&e.get_ref().as_slice()[40..44], &[2, 0, 0, 0]);
    assert_eq!(&e.get_ref().as_slice()[4..8], &[38, 0, 0, 0]);
}
