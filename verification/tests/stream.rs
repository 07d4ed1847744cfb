use korg_syro::convert_data;
use korg_syro::pattern::Pattern;
use korg_syro::session::Progress;
use korg_syro::session::Reply;
use korg_syro::session::Request;
use korg_syro::session::Session;
use korg_syro::DataKind;
use korg_syro::DataUnit;
use korg_syro::EngineStatus;
use korg_syro::SyroError;
use korg_syro::SyroStream;

// 0.5 second sine wave
fn sine_wave() -> Vec<i16> {
    let mut wf = waver::Waveform::<i16>::new(44100.0);
    wf.superpose(waver::Wave {
        frequency: 440.0,
        ..Default::default()
    })
    .normalize_amplitudes();
    wf.iter().take(22050).collect()
}

// Plays the part of an engine that opens, gives `frame_count` frames that
// count upwards, and closes.
fn drive(mut session: Session, frame_count: u32) -> Result<Vec<i16>, SyroError> {
    let mut pulled: i16 = 0;
    loop {
        let reply = match session.request() {
            Request::Open => Reply::Opened {
                status: EngineStatus::Success,
                frame_count,
            },
            Request::Pull => {
                pulled += 1;
                Reply::Pulled {
                    status: EngineStatus::Success,
                    left: pulled,
                    right: -pulled,
                }
            }
            Request::Close => Reply::Closed {
                status: EngineStatus::Success,
            },
        };
        match session.advance(reply) {
            Progress::Pending(next) => session = next,
            Progress::Finished(result) => return result,
        }
    }
}

fn kinds(session: &Session) -> Vec<(DataKind, u32)> {
    session
        .units()
        .iter()
        .map(|unit| (unit.kind, unit.slot_index))
        .collect()
}

#[test]
fn out_of_bounds() {
    let mut syro_stream = SyroStream::default();
    let result = syro_stream.add_sample(100, vec![], 44100, None);
    assert!(result.is_err());
    assert_eq!(
        result.err().unwrap(),
        SyroError::OutOfBounds {
            val: 100,
            name: "sample_index".into(),
            lo: 0,
            hi: 99
        }
    );
}

#[test]
fn empty_syrostream() {
    let result = SyroStream::default().generate();
    assert!(result.is_err());
    assert_eq!(result.err().unwrap(), SyroError::EmptyStream);
}

#[test]
fn basic() {
    let input_data: Vec<i16> = sine_wave();

    let mut syro_stream = SyroStream::default();

    syro_stream.add_sample(0, input_data, 44100, None).unwrap();
    syro_stream.erase_sample(1).unwrap();
    syro_stream.add_pattern(0, Pattern::default()).unwrap();

    let session = syro_stream.generate().unwrap();
    assert_eq!(
        kinds(&session),
        vec![
            (DataKind::SampleLinear, 0),
            (DataKind::SampleErase, 1),
            (DataKind::Pattern, 0)
        ]
    );
    assert_eq!(session.units()[0].payload.len(), 2 * 22050);
    assert_eq!(session.units()[0].sample_rate, 44100);
    assert!(session.units()[1].payload.is_empty());
    assert_eq!(session.units()[2].payload.len(), 2624);

    let output = drive(session, 8).unwrap();
    assert!(!output.is_empty());
    assert_eq!(output.len() % 2, 0);
    assert_eq!(output.len(), 16);
}

#[test]
fn sample_slot_is_not_truncated() {
    let mut syro_stream = SyroStream::default();
    for index in [100u32, 255, 256, 356, 65_536, 4_000_000_000] {
        let result = syro_stream.add_sample(index, vec![1, 2], 44100, None);
        assert_eq!(
            result.err().unwrap(),
            SyroError::OutOfBounds {
                val: index,
                name: "sample_index",
                lo: 0,
                hi: 99
            }
        );
    }
    assert!(syro_stream.add_sample(99, vec![1, 2], 44100, None).is_ok());
    assert!(syro_stream.add_sample(0, vec![], 44100, None).is_ok());
}

#[test]
fn pattern_slot_out_of_bounds() {
    let mut syro_stream = SyroStream::default();
    let result = syro_stream.add_pattern(10, Pattern::default());
    assert_eq!(
        result.err().unwrap(),
        SyroError::OutOfBounds {
            val: 10,
            name: "pattern_index",
            lo: 0,
            hi: 9
        }
    );
    let result = syro_stream.add_pattern(256, Pattern::default());
    assert_eq!(
        result.err().unwrap(),
        SyroError::OutOfBounds {
            val: 256,
            name: "pattern_index",
            lo: 0,
            hi: 9
        }
    );
    // a slot too large for the error's number is reported as the largest
    let result = syro_stream.add_pattern(usize::MAX, Pattern::default());
    assert_eq!(
        result.err().unwrap(),
        SyroError::OutOfBounds {
            val: u32::MAX,
            name: "pattern_index",
            lo: 0,
            hi: 9
        }
    );
    assert!(syro_stream.add_pattern(9, Pattern::default()).is_ok());
    // nothing but the accepted pattern was collected
    let session = syro_stream.generate().unwrap();
    assert_eq!(kinds(&session), vec![(DataKind::Pattern, 9)]);
}

#[test]
fn erase_slot_out_of_bounds() {
    let mut syro_stream = SyroStream::default();
    assert_eq!(
        syro_stream.erase_sample(100).err().unwrap(),
        SyroError::OutOfBounds {
            val: 100,
            name: "sample_index",
            lo: 0,
            hi: 99
        }
    );
    assert!(syro_stream.erase_sample(99).is_ok());
    let session = syro_stream.generate().unwrap();
    assert_eq!(kinds(&session), vec![(DataKind::SampleErase, 99)]);
    let unit = &session.units()[0];
    assert!(unit.payload.is_empty());
    assert_eq!(unit.sample_rate, 0);
    assert_eq!(unit.quality, 0);
}

#[test]
fn bit_depth_bounds() {
    let mut syro_stream = SyroStream::default();
    for depth in [0u32, 7, 17, 264, u32::MAX] {
        let result = syro_stream.add_sample(3, vec![5], 44100, Some(depth));
        assert_eq!(
            result.err().unwrap(),
            SyroError::OutOfBounds {
                val: depth,
                name: "bit_depth",
                lo: 8,
                hi: 16
            }
        );
    }
    // a refused sample leaves the stream as it was: still empty
    assert_eq!(
        syro_stream.generate().err().unwrap(),
        SyroError::EmptyStream
    );

    let mut syro_stream = SyroStream::default();
    assert!(syro_stream.add_sample(3, vec![5], 44100, Some(8)).is_ok());
    assert!(syro_stream.add_sample(4, vec![5], 32000, Some(16)).is_ok());
    let session = syro_stream.generate().unwrap();
    assert_eq!(
        kinds(&session),
        vec![
            (DataKind::SampleCompressed, 3),
            (DataKind::SampleCompressed, 4)
        ]
    );
    assert_eq!(session.units()[0].quality, 8);
    assert_eq!(session.units()[1].quality, 16);
    assert_eq!(session.units()[1].sample_rate, 32000);
}

#[test]
fn slot_is_checked_before_bit_depth() {
    let mut syro_stream = SyroStream::default();
    let result = syro_stream.add_sample(100, vec![], 44100, Some(7));
    assert_eq!(
        result.err().unwrap(),
        SyroError::OutOfBounds {
            val: 100,
            name: "sample_index",
            lo: 0,
            hi: 99
        }
    );
}

#[test]
fn adding_to_a_used_slot_replaces() {
    let mut syro_stream = SyroStream::default();
    syro_stream.add_sample(7, vec![1, 2, 3], 44100, None).unwrap();
    syro_stream.add_sample(2, vec![9], 22050, Some(12)).unwrap();
    syro_stream.add_sample(7, vec![-1], 48000, None).unwrap();
    syro_stream.erase_sample(2).unwrap();
    syro_stream.add_pattern(4, Pattern::default()).unwrap();
    syro_stream.add_pattern(1, Pattern::default()).unwrap();
    let session = syro_stream.generate().unwrap();
    // samples by slot, then patterns by slot
    assert_eq!(
        kinds(&session),
        vec![
            (DataKind::SampleErase, 2),
            (DataKind::SampleLinear, 7),
            (DataKind::Pattern, 1),
            (DataKind::Pattern, 4)
        ]
    );
    assert_eq!(session.units()[1].payload, vec![0xff, 0xff]);
    assert_eq!(session.units()[1].sample_rate, 48000);
    assert_eq!(session.units()[1].quality, 0);
}

#[test]
fn pcm_is_laid_out_low_byte_first() {
    assert_eq!(
        convert_data(vec![1, -2, 0x1234, i16::MIN, i16::MAX, 0]),
        vec![0x01, 0x00, 0xfe, 0xff, 0x34, 0x12, 0x00, 0x80, 0xff, 0x7f, 0x00, 0x00]
    );
    assert_eq!(convert_data(vec![]), Vec::<u8>::new());
}

#[test]
fn sample_payload_is_converted() {
    let mut syro_stream = SyroStream::default();
    syro_stream
        .add_sample(0, vec![0x0102, -256], 44100, None)
        .unwrap();
    let session = syro_stream.generate().unwrap();
    assert_eq!(session.units()[0].payload, vec![0x02, 0x01, 0x00, 0xff]);
}

#[test]
fn reset_raw_runs_as_single_slot() {
    let image: Vec<u8> = vec![7, 0, 9, 200, 31];
    let session = SyroStream::reset(image.clone(), None).unwrap();
    assert_eq!(session.request(), Request::Open);
    assert_eq!(kinds(&session), vec![(DataKind::ResetRaw, 0)]);
    let unit = &session.units()[0];
    assert_eq!(unit.payload, image);
    assert_eq!(unit.sample_rate, 44100);
    assert_eq!(unit.quality, 0);
    let output = drive(session, 3).unwrap();
    assert_eq!(output, vec![1, -1, 2, -2, 3, -3]);
}

#[test]
fn reset_compressed() {
    let session = SyroStream::reset(vec![1, 2, 3], Some(16)).unwrap();
    assert_eq!(kinds(&session), vec![(DataKind::ResetCompressed, 0)]);
    assert_eq!(session.units()[0].quality, 16);
    assert_eq!(session.units()[0].sample_rate, 44100);

    let result = SyroStream::reset(vec![1, 2, 3], Some(17));
    assert_eq!(
        result.err().unwrap(),
        SyroError::OutOfBounds {
            val: 17,
            name: "bit_depth",
            lo: 8,
            hi: 16
        }
    );
    let result = SyroStream::reset(vec![], Some(7));
    assert!(matches!(
        result,
        Err(SyroError::OutOfBounds {
            val: 7,
            name: "bit_depth",
            lo: 8,
            hi: 16
        })
    ));
}

#[test]
fn data_unit_constructors() {
    let unit = DataUnit::sample(5, vec![3], 8000, Some(9)).unwrap();
    assert_eq!(unit.kind, DataKind::SampleCompressed);
    assert_eq!(unit.slot_index, 5);
    assert_eq!(unit.payload, vec![3, 0]);
    assert_eq!(unit.sample_rate, 8000);
    assert_eq!(unit.quality, 9);

    assert_eq!(unit.size(), 2);

    let unit = DataUnit::pattern(9, vec![1, 2, 3]).unwrap();
    assert_eq!(unit.size(), 3);
    assert_eq!(unit.kind, DataKind::Pattern);
    assert_eq!(unit.slot_index, 9);
    assert_eq!(unit.payload, vec![1, 2, 3]);
    assert_eq!(unit.sample_rate, 0);
    assert_eq!(unit.quality, 0);
    assert_eq!(
        DataUnit::pattern(10, vec![]).err().unwrap(),
        SyroError::OutOfBounds {
            val: 10,
            name: "pattern_index",
            lo: 0,
            hi: 9
        }
    );
    assert!(DataUnit::erase(100).is_err());
    assert!(DataUnit::reset(vec![], Some(8)).is_ok());
}
