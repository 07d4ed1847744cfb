use korg_syro::pattern::check_speed;
use korg_syro::pattern::Func;
use korg_syro::pattern::MotionSeq;
use korg_syro::pattern::Param;
use korg_syro::pattern::Part;
use korg_syro::pattern::Pattern;
use korg_syro::pattern::Step;
use korg_syro::pattern::Steps;
use korg_syro::pattern::Toggle;
use korg_syro::pattern::Toggle::Off;
use korg_syro::pattern::Toggle::On;
use korg_syro::SyroError;

// Where the fields of a part lie in its 256 bytes.
const PARAM_AT: usize = 9;
const FUNC_AT: usize = 20;
const MOTION_AT: usize = 32;

// The bytes of a part that was never touched, for sample 0.
fn untouched_part() -> Vec<u8> {
    let mut bytes = vec![0u8; 8];
    bytes.push(0x7f);
    bytes.extend_from_slice(&[0x7f, 0x40, 0x40, 0x00, 0x7f, 0x40, 0x00, 0x7f, 0x00, 0x7f, 0x7f]);
    bytes.push(0x10);
    bytes.extend_from_slice(&[0u8; 11]);
    bytes.extend_from_slice(&[0u8; 224]);
    bytes
}

// The image that the sampler's own initialisation leaves of a pattern.
fn init_image() -> Vec<u8> {
    let mut bytes = vec![0x50, 0x54, 0x53, 0x54, 0xb8, 0x33, 0x00, 0x00, 0xff, 0xff];
    bytes.extend_from_slice(&[0u8; 22]);
    for _ in 0..10 {
        bytes.extend_from_slice(&untouched_part());
    }
    bytes.extend_from_slice(&[0u8; 28]);
    bytes.extend_from_slice(&[0x50, 0x54, 0x45, 0x44]);
    bytes
}

fn out_of_bounds(val: u32, name: &'static str, lo: usize, hi: usize) -> SyroError {
    SyroError::OutOfBounds { val, name, lo, hi }
}

#[test]
fn test_step() {
    let steps = Steps::builder()
        .on(Step::Three)
        .on(Step::Seven)
        .on(Step::Twelve)
        .build()
        .to_bytes();

    println!("{:#018b}", steps);

    assert_eq!(steps, 0b000100001000100);
}

#[test]
fn test_part_builder() {
    let motion_seq: [u8; 16] = [
        1, 8, 16, 24, 32, 40, 48, 56, 64, 72, 80, 88, 96, 104, 112, 120,
    ];
    let continuous_speed_motion_seq: [u8; 16] = [
        129, 137, 145, 153, 161, 169, 177, 185, 193, 201, 209, 217, 225, 233, 241, 249,
    ];
    let semitone_speed_motion_seq: [u8; 16] = [
        40, 43, 46, 49, 52, 55, 58, 61, 64, 67, 70, 73, 76, 79, 82, 85,
    ];
    let _part = Part::for_sample(0)
        .unwrap()
        .with_steps(
            Steps::builder()
                .on(Step::Three)
                .on(Step::Seven)
                .on(Step::Thirteen)
                .build(),
        )
        .level(42)
        .unwrap()
        .pan(42)
        .unwrap()
        .amp_eg_attack(42)
        .unwrap()
        .amp_eg_decay(42)
        .unwrap()
        .pitch_eg_attack(42)
        .unwrap()
        .pitch_eg_int(42)
        .unwrap()
        .pitch_eg_decay(42)
        .unwrap()
        .starting_point(42)
        .unwrap()
        .length(42)
        .unwrap()
        .hi_cut(42)
        .unwrap()
        .level_start_motion_seq(motion_seq.clone())
        .unwrap()
        .level_end_motion_seq(motion_seq.clone())
        .unwrap()
        .pan_start_motion_seq(motion_seq.clone())
        .unwrap()
        .pan_end_motion_seq(motion_seq.clone())
        .unwrap()
        .speed_start_motion_seq(continuous_speed_motion_seq.clone())
        .unwrap()
        .speed_end_motion_seq(semitone_speed_motion_seq.clone())
        .unwrap()
        .amp_eg_attack_motion_seq(motion_seq.clone())
        .unwrap()
        .amp_eg_decay_motion_seq(motion_seq.clone())
        .unwrap()
        .pitch_eg_int_motion_seq(motion_seq.clone())
        .unwrap()
        .pitch_eg_attack_motion_seq(motion_seq.clone())
        .unwrap()
        .pitch_eg_decay_motion_seq(motion_seq.clone())
        .unwrap()
        .start_point_motion_seq(motion_seq.clone())
        .unwrap()
        .length_motion_seq(motion_seq.clone())
        .unwrap()
        .hi_cut_motion_seq(motion_seq.clone())
        .unwrap()
        .motion(On)
        .looped(On)
        .reverb(On)
        .reverse(On)
        .mute(Off)
        .build();
}

#[test]
fn test_pattern_default() {
    let raw_bytes: Vec<u8> = init_image();

    let default_bytes = Pattern::default().to_bytes();

    assert_eq!(raw_bytes, default_bytes);
}

#[test]
fn test_pattern() {
    let mut pattern = Pattern::default();
    pattern
        .with_part(
            0u8,
            Part::for_sample(0)
                .unwrap()
                .with_steps(
                    Steps::builder()
                        .on(Step::One)
                        .on(Step::Three)
                        .on(Step::Five)
                        .on(Step::Seven)
                        .build(),
                )
                .mute(Off)
                .build(),
        )
        .unwrap();

    let _data = pattern.to_bytes();
}

#[test]
fn pattern_length_is_constant() {
    assert_eq!(init_image().len(), 2624);
    assert_eq!(Pattern::default().to_bytes().len(), 2624);
    let mut pattern = Pattern::default();
    let part = Part::for_sample(99)
        .unwrap()
        .hi_cut_motion_seq([127; 16])
        .unwrap()
        .build();
    for index in 0..10u8 {
        pattern.with_part(index, part).unwrap();
    }
    assert_eq!(pattern.to_bytes().len(), 2624);
    assert_eq!(part.to_bytes().len(), 256);
}

#[test]
fn step_bitmasks() {
    assert_eq!(Step::One.to_bitmask(), 0x0001);
    assert_eq!(Step::Two.to_bitmask(), 0x0002);
    assert_eq!(Step::Eight.to_bitmask(), 0x0080);
    assert_eq!(Step::Nine.to_bitmask(), 0x0100);
    assert_eq!(Step::Sixteen.to_bitmask(), 0x8000);
    assert_eq!(Steps::builder().to_bytes(), 0);
    let mut steps = Steps::builder();
    steps.on(Step::Sixteen).on(Step::One).on(Step::Sixteen);
    assert_eq!(steps.to_bytes(), 0x8001);
}

#[test]
fn part_layout() {
    let part = Part::for_sample(0x0063)
        .unwrap()
        .with_steps(Steps::builder().on(Step::One).on(Step::Ten).build())
        .level(1)
        .unwrap()
        .pan(2)
        .unwrap()
        .speed(200)
        .unwrap()
        .amp_eg_attack(4)
        .unwrap()
        .amp_eg_decay(5)
        .unwrap()
        .pitch_eg_int(6)
        .unwrap()
        .pitch_eg_attack(7)
        .unwrap()
        .pitch_eg_decay(8)
        .unwrap()
        .starting_point(9)
        .unwrap()
        .length(10)
        .unwrap()
        .hi_cut(11)
        .unwrap()
        .build();
    let bytes = part.to_bytes();
    assert_eq!(bytes.len(), 256);
    // sample number and step map, low byte first
    assert_eq!(&bytes[0..4], &[0x63, 0x00, 0x01, 0x02]);
    // accent and reserved
    assert_eq!(&bytes[4..8], &[0, 0, 0, 0]);
    // part level, fixed
    assert_eq!(bytes[8], 127);
    assert_eq!(
        &bytes[PARAM_AT..PARAM_AT + 11],
        &[1, 2, 200, 4, 5, 6, 7, 8, 9, 10, 11]
    );
    assert_eq!(bytes[FUNC_AT], 0x10);
    assert_eq!(&bytes[21..32], &[0u8; 11]);
    assert_eq!(&bytes[MOTION_AT..], &[0u8; 224][..]);
}

#[test]
fn motion_layout() {
    let mut part = Part::for_sample(0).unwrap();
    let rows: [MotionSeq; 14] = [
        MotionSeq::LevelStart,
        MotionSeq::LevelEnd,
        MotionSeq::PanStart,
        MotionSeq::PanEnd,
        MotionSeq::SpeedStart,
        MotionSeq::SpeedEnd,
        MotionSeq::AmpEgAttack,
        MotionSeq::AmpEgDecay,
        MotionSeq::PitchEgInt,
        MotionSeq::PitchEgAttack,
        MotionSeq::PitchEgDecay,
        MotionSeq::StartPoint,
        MotionSeq::Length,
        MotionSeq::HiCut,
    ];
    for (row, motion) in rows.iter().enumerate() {
        let mut sequence = [0u8; 16];
        for (step, entry) in sequence.iter_mut().enumerate() {
            *entry = 41 + row as u8 + step as u8;
        }
        part.set_motion(*motion, sequence).unwrap();
    }
    let bytes = part.to_bytes();
    for row in 0..14 {
        for step in 0..16 {
            assert_eq!(bytes[MOTION_AT + 16 * row + step], (41 + row + step) as u8);
        }
    }
    assert_eq!(&bytes[..MOTION_AT], &untouched_part()[..MOTION_AT]);

    // the named setters write the same rows
    let other = Part::for_sample(0)
        .unwrap()
        .pan_end_motion_seq([64; 16])
        .unwrap()
        .hi_cut_motion_seq([3; 16])
        .unwrap()
        .build()
        .to_bytes();
    assert_eq!(&other[MOTION_AT + 3 * 16..MOTION_AT + 4 * 16], &[64u8; 16]);
    assert_eq!(&other[MOTION_AT + 13 * 16..], &[3u8; 16]);
    assert_eq!(&other[MOTION_AT..MOTION_AT + 3 * 16], &[0u8; 48][..]);
}

#[test]
fn generic_setter_matches_named() {
    let named = Part::for_sample(1)
        .unwrap()
        .length(33)
        .unwrap()
        .reverb(On)
        .build()
        .to_bytes();
    let generic = Part::for_sample(1)
        .unwrap()
        .set_param(Param::Length, 33)
        .unwrap()
        .toggle_func_memory_part(Func::Reverb, On)
        .build()
        .to_bytes();
    assert_eq!(named, generic);
    assert_eq!(named[PARAM_AT + 9], 33);
}

#[test]
fn toggles_are_idempotent_and_independent() {
    let flags = |part: &Part| part.to_bytes()[FUNC_AT];
    let mut part = Part::for_sample(0).unwrap();
    assert_eq!(flags(&part), 0x10);
    part.motion(On);
    assert_eq!(flags(&part), 0x11);
    part.motion(On);
    assert_eq!(flags(&part), 0x11);
    part.looped(On);
    assert_eq!(flags(&part), 0x13);
    part.reverb(On).reverse(On);
    assert_eq!(flags(&part), 0x1f);
    part.looped(Off);
    assert_eq!(flags(&part), 0x1d);
    part.looped(Off);
    assert_eq!(flags(&part), 0x1d);
    part.motion(Off).reverse(Off);
    assert_eq!(flags(&part), 0x14);
    // a later call for the same switch wins
    part.reverb(Off).reverb(On).reverb(Off);
    assert_eq!(flags(&part), 0x10);

    // either order gives the same
    let one = Part::for_sample(0).unwrap().motion(On).reverse(On).build();
    let other = Part::for_sample(0).unwrap().reverse(On).motion(On).build();
    assert_eq!(one.to_bytes(), other.to_bytes());
    assert_eq!(flags(&one), 0x19);
}

#[test]
fn mute_touches_its_own_bit_only() {
    let flags = |part: &Part| part.to_bytes()[FUNC_AT];
    let mut part = Part::for_sample(0).unwrap();
    // a part starts out not muted: the bit is set
    part.mute(Off);
    assert_eq!(flags(&part), 0x10);
    part.mute(On);
    assert_eq!(flags(&part), 0x00);
    part.mute(On);
    assert_eq!(flags(&part), 0x00);
    part.motion(On).looped(On).reverb(On).reverse(On);
    assert_eq!(flags(&part), 0x0f);
    part.mute(Off);
    assert_eq!(flags(&part), 0x1f);
    part.mute(On);
    assert_eq!(flags(&part), 0x0f);
    part.motion(Off).looped(Off).reverb(Off).reverse(Off).mute(Off);
    assert_eq!(flags(&part), 0x10);
    assert_eq!(part.to_bytes(), untouched_part());
}

#[test]
fn toggle_values_differ() {
    assert_ne!(Toggle::On, Toggle::Off);
}

#[test]
fn replacing_a_part_leaves_nothing_of_the_old() {
    let earlier = Part::for_sample(42)
        .unwrap()
        .with_steps(Steps::builder().on(Step::Two).on(Step::Sixteen).build())
        .level(1)
        .unwrap()
        .speed(255)
        .unwrap()
        .level_start_motion_seq([100; 16])
        .unwrap()
        .hi_cut_motion_seq([9; 16])
        .unwrap()
        .motion(On)
        .looped(On)
        .reverb(On)
        .reverse(On)
        .mute(On)
        .build();
    let later = Part::for_sample(7).unwrap().pan(3).unwrap().build();

    let mut twice = Pattern::default();
    twice.with_part(3, earlier).unwrap();
    let with_earlier = twice.clone().to_bytes();
    twice.with_part(3, later).unwrap();
    let mut once = Pattern::default();
    once.with_part(3, later).unwrap();

    let twice = twice.to_bytes();
    assert_eq!(twice, once.to_bytes());
    let block = 32 + 3 * 256..32 + 4 * 256;
    assert_eq!(&twice[block.clone()], &later.to_bytes()[..]);
    assert_eq!(&with_earlier[block.clone()], &earlier.to_bytes()[..]);
    // every byte outside the block is that of the untouched pattern
    let image = init_image();
    assert_eq!(&twice[..block.start], &image[..block.start]);
    assert_eq!(&twice[block.end..], &image[block.end..]);
    assert_eq!(&with_earlier[..block.start], &image[..block.start]);
    assert_eq!(&with_earlier[block.end..], &image[block.end..]);
}

#[test]
fn part_index_bounds() {
    let part = Part::for_sample(0).unwrap();
    let mut pattern = Pattern::default();
    assert_eq!(
        pattern.with_part(10, part).err().unwrap(),
        out_of_bounds(10, "part_index", 0, 9)
    );
    assert_eq!(
        pattern.with_part(255, part).err().unwrap(),
        out_of_bounds(255, "part_index", 0, 9)
    );
    // the refused part changed nothing
    assert_eq!(pattern.clone().to_bytes(), init_image());
    assert!(pattern.with_part(9, part).is_ok());
    assert!(pattern.with_part(0, part).is_ok());
}

#[test]
fn sample_reference_bounds() {
    assert_eq!(
        Part::for_sample(100).err().unwrap(),
        out_of_bounds(100, "sample_index", 0, 99)
    );
    assert_eq!(
        Part::for_sample(256).err().unwrap(),
        out_of_bounds(256, "sample_index", 0, 99)
    );
    assert_eq!(
        Part::for_sample(u16::MAX).err().unwrap(),
        out_of_bounds(65535, "sample_index", 0, 99)
    );
    assert_eq!(Part::for_sample(0).unwrap().to_bytes(), untouched_part());
    assert_eq!(&Part::for_sample(99).unwrap().to_bytes()[0..2], &[99, 0]);
}

#[test]
fn scalar_setters_refuse_out_of_range() {
    let mut part = Part::for_sample(0).unwrap();
    assert_eq!(part.level(128).err().unwrap(), out_of_bounds(128, "level", 0, 127));
    assert_eq!(part.pan(0).err().unwrap(), out_of_bounds(0, "pan", 1, 127));
    assert_eq!(part.pan(128).err().unwrap(), out_of_bounds(128, "pan", 1, 127));
    assert_eq!(
        part.amp_eg_attack(200).err().unwrap(),
        out_of_bounds(200, "amp_eg_attack", 0, 127)
    );
    assert_eq!(
        part.amp_eg_decay(128).err().unwrap(),
        out_of_bounds(128, "amp_eg_decay", 0, 127)
    );
    assert_eq!(
        part.pitch_eg_attack(255).err().unwrap(),
        out_of_bounds(255, "pitch_eg_attack", 0, 127)
    );
    assert_eq!(
        part.pitch_eg_int(0).err().unwrap(),
        out_of_bounds(0, "pitch_eg_int", 1, 127)
    );
    assert_eq!(
        part.pitch_eg_decay(128).err().unwrap(),
        out_of_bounds(128, "pitch_eg_decay", 0, 127)
    );
    assert_eq!(
        part.starting_point(128).err().unwrap(),
        out_of_bounds(128, "starting_point", 0, 127)
    );
    assert_eq!(part.length(128).err().unwrap(), out_of_bounds(128, "length", 0, 127));
    assert_eq!(part.hi_cut(128).err().unwrap(), out_of_bounds(128, "hi_cut", 0, 127));
    // nothing was written
    assert_eq!(part.to_bytes(), untouched_part());
    // the ends of the ranges are taken
    assert!(part.level(0).is_ok());
    assert!(part.level(127).is_ok());
    assert!(part.pan(1).is_ok());
    assert!(part.pan(127).is_ok());
    assert!(part.pitch_eg_int(1).is_ok());
    assert!(part.hi_cut(127).is_ok());
}

#[test]
fn speed_has_two_ranges() {
    let mut part = Part::for_sample(0).unwrap();
    for speed in [40u8, 64, 88, 129, 192, 255] {
        assert!(part.speed(speed).is_ok());
        assert_eq!(part.to_bytes()[PARAM_AT + 2], speed);
        assert_eq!(check_speed(speed), Ok(()));
    }
    for speed in [0u8, 39, 89, 100, 128] {
        // the error cites the first of the two ranges
        assert_eq!(
            part.speed(speed).err().unwrap(),
            out_of_bounds(speed as u32, "speed", 40, 88)
        );
        assert_eq!(
            check_speed(speed),
            Err(out_of_bounds(speed as u32, "speed", 40, 88))
        );
        assert_eq!(part.to_bytes()[PARAM_AT + 2], 255);
    }
}

#[test]
fn motion_sequence_reports_first_refused_entry() {
    let mut part = Part::for_sample(0).unwrap();
    let mut sequence = [64u8; 16];
    sequence[5] = 200;
    sequence[9] = 130;
    assert_eq!(
        part.level_start_motion_seq(sequence).err().unwrap(),
        out_of_bounds(200, "level", 0, 127)
    );
    assert_eq!(
        part.pan_start_motion_seq([0; 16]).err().unwrap(),
        out_of_bounds(0, "pan", 1, 127)
    );
    let mut sequence = [129u8; 16];
    sequence[15] = 128;
    assert_eq!(
        part.speed_end_motion_seq(sequence).err().unwrap(),
        out_of_bounds(128, "speed", 40, 88)
    );
    sequence[0] = 89;
    assert_eq!(
        part.speed_start_motion_seq(sequence).err().unwrap(),
        out_of_bounds(89, "speed", 40, 88)
    );
    assert_eq!(
        part.length_motion_seq([128; 16]).err().unwrap(),
        out_of_bounds(128, "length", 0, 127)
    );
    assert_eq!(
        part.start_point_motion_seq([255; 16]).err().unwrap(),
        out_of_bounds(255, "starting_point", 0, 127)
    );
    // a refused sequence writes nothing, not even its good entries
    assert_eq!(part.to_bytes(), untouched_part());
}

#[test]
fn steps_by_number() {
    assert_eq!(Step::try_from_primitive(0), Some(Step::One));
    assert_eq!(Step::try_from_primitive(6), Some(Step::Seven));
    assert_eq!(Step::try_from_primitive(15), Some(Step::Sixteen));
    assert_eq!(Step::try_from_primitive(16), None);
    assert_eq!(Step::try_from_primitive(255), None);
    for number in 0..16u8 {
        let step = Step::try_from_primitive(number).unwrap();
        assert_eq!(step.bit(), number as u16);
        assert_eq!(step.to_bitmask(), 1u16 << number);
    }
}
