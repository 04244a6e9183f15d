use lg_codec::audio_codec::decoder::LgDecoder;
use lg_codec::audio_codec::encoder::LgEncoder;
use lg_codec::audio_codec::sample::{SampleType, WireSample};
use lg_codec::audio_codec::wav::decoder::LgWavDecoder;
use lg_codec::audio_codec::wav::encoder::LgWavEncoder;
use lg_codec::audio_codec::AudioInfo;
use lg_codec::reader::ByteReader;
use lg_codec::writer::ByteWriter;

fn encode(info: AudioInfo, samples: &[WireSample]) -> Vec<u8> {
    let mut encoder = LgWavEncoder::new(ByteWriter::new(), info).unwrap();
    for s in samples {
        encoder.encode_sample(*s).unwrap();
    }
    encoder.finish().unwrap().into_inner()
}

#[test]
fn stereo_16_bit_scenario() {
    let info = AudioInfo {
        channels: 2,
        sample_rate: 44100,
        bits_per_sample: 16,
        sample_type: Some(SampleType::INT),
    };
    let samples = [
        WireSample::Int(0),
        WireSample::Int(1000),
        WireSample::Int(-1000),
        WireSample::Int(32767),
    ];
    let bytes = encode(info, &samples);
    assert_eq!(bytes.len(), 44 + 8);
    let mut decoder = LgWavDecoder::new(ByteReader::new(bytes)).unwrap();
    assert_eq!(decoder.info(), info);
    assert_eq!(decoder.len(), 4);
    assert_eq!(decoder.duration(), 0);
    assert_eq!(decoder.samples(), samples.to_vec());
    assert_eq!(decoder.samples(), vec![]);
}

#[test]
fn every_format_survives_the_round_trip() {
    for channels in [1u16, 2, 8] {
        for (sample_type, bits) in [
            (SampleType::INT, 8u16),
            (SampleType::INT, 16),
            (SampleType::INT, 24),
            (SampleType::INT, 32),
            (SampleType::FLOAT, 32),
            (SampleType::FLOAT, 64),
        ] {
            for n in [0usize, 1, 7, 64] {
                let info = AudioInfo {
                    channels,
                    sample_rate: 22050,
                    bits_per_sample: bits,
                    sample_type: Some(sample_type),
                };
                let samples: Vec<WireSample> = (0..n as i32)
                    .map(|i| match (sample_type, bits) {
                        (SampleType::INT, _) => WireSample::Int(i * 3 - 96),
                        (_, 32) => WireSample::Float32((i as f32 / 64.0).to_bits()),
                        _ => WireSample::Float64((i as f64 / -64.0).to_bits()),
                    })
                    .collect();
                let bytes = encode(info, &samples);
                let mut decoder = LgWavDecoder::new(ByteReader::new(bytes)).unwrap();
                assert_eq!(decoder.info(), info);
                assert_eq!(decoder.len(), n);
                assert_eq!(decoder.samples(), samples);
                assert_eq!(decoder.samples(), vec![]);
            }
        }
    }
}

#[test]
fn a_format_without_codec_survives_with_no_samples() {
    let info = AudioInfo {
        channels: 2,
        sample_rate: 8000,
        bits_per_sample: 40,
        sample_type: Some(SampleType::FLOAT),
    };
    let bytes = encode(info, &[]);
    let mut decoder = LgWavDecoder::new(ByteReader::new(bytes)).unwrap();
    assert_eq!(decoder.info(), info);
    assert_eq!(decoder.len(), 0);
    assert_eq!(decoder.samples(), vec![]);
}

#[test]
fn samples_beyond_the_depth_come_back_with_their_low_bits() {
    let info = AudioInfo {
        channels: 1,
        sample_rate: 8000,
        bits_per_sample: 8,
        sample_type: Some(SampleType::INT),
    };
    let bytes = encode(info, &[WireSample::Int(1000), WireSample::Int(-129), WireSample::Int(5)]);
    let mut decoder = LgWavDecoder::new(ByteReader::new(bytes)).unwrap();
    assert_eq!(
        decoder.samples(),
        vec![WireSample::Int(-24), WireSample::Int(127), WireSample::Int(5)]
    );
}

#[test]
fn a_flushed_container_can_be_read_before_it_is_finished() {
    let info = AudioInfo {
        channels: 1,
        sample_rate: 8000,
        bits_per_sample: 16,
        sample_type: Some(SampleType::INT),
    };
    let mut encoder = LgWavEncoder::new(ByteWriter::new(), info).unwrap();
    encoder.encode_sample(WireSample::Int(11)).unwrap();
    encoder.flush().unwrap();
    encoder.encode_sample(WireSample::Int(22)).unwrap();
    encoder.flush().unwrap();
    let bytes = encoder.finish().unwrap().into_inner();
    let mut decoder = LgWavDecoder::new(ByteReader::new(bytes)).unwrap();
    assert_eq!(decoder.samples(), vec![WireSample::Int(11), WireSample::Int(22)]);
}
