use korg_syro::bounds::validate;
use korg_syro::bounds::Field;
use korg_syro::bounds::Range;
use korg_syro::SyroError;

const FIELDS: [Field; 15] = [
    Field::SampleIndex,
    Field::BitDepth,
    Field::PatternIndex,
    Field::PartIndex,
    Field::Level,
    Field::Pan,
    Field::Speed,
    Field::AmpEgAttack,
    Field::AmpEgDecay,
    Field::PitchEgInt,
    Field::PitchEgAttack,
    Field::PitchEgDecay,
    Field::StartingPoint,
    Field::Length,
    Field::HiCut,
];

#[test]
fn validate_single_range() {
    let ranges = [Range { lo: 8, hi: 16 }];
    assert_eq!(validate("bit_depth", 8, &ranges), Ok(()));
    assert_eq!(validate("bit_depth", 12, &ranges), Ok(()));
    assert_eq!(validate("bit_depth", 16, &ranges), Ok(()));
    assert_eq!(
        validate("bit_depth", 7, &ranges),
        Err(SyroError::OutOfBounds {
            val: 7,
            name: "bit_depth",
            lo: 8,
            hi: 16
        })
    );
    assert_eq!(
        validate("bit_depth", 17, &ranges),
        Err(SyroError::OutOfBounds {
            val: 17,
            name: "bit_depth",
            lo: 8,
            hi: 16
        })
    );
    assert_eq!(
        validate("other", u32::MAX, &ranges),
        Err(SyroError::OutOfBounds {
            val: u32::MAX,
            name: "other",
            lo: 8,
            hi: 16
        })
    );
}

#[test]
fn validate_disjoint_ranges() {
    let ranges = [
        Range { lo: 40, hi: 88 },
        Range { lo: 129, hi: 255 },
        Range { lo: 1000, hi: 1000 },
    ];
    for value in [40, 41, 88, 129, 255, 1000] {
        assert_eq!(validate("speed", value, &ranges), Ok(()));
    }
    for value in [0, 39, 89, 128, 256, 999, 1001] {
        assert_eq!(
            validate("speed", value, &ranges),
            Err(SyroError::OutOfBounds {
                val: value,
                name: "speed",
                lo: 40,
                hi: 88
            })
        );
    }
}

#[test]
fn every_field_takes_its_ends_and_nothing_beyond() {
    for field in FIELDS {
        let mut ranges = vec![field.primary()];
        if let Some(second) = field.secondary() {
            ranges.push(second);
        }
        assert_eq!(field.ranges(), ranges);
        for range in &ranges {
            assert_eq!(field.check(range.lo), Ok(()));
            assert_eq!(field.check(range.hi), Ok(()));
            assert_eq!(field.check((range.lo + range.hi) / 2), Ok(()));
        }
        let refusal = |value: u32| {
            Err(SyroError::OutOfBounds {
                val: value,
                name: field.name(),
                lo: ranges[0].lo as usize,
                hi: ranges[0].hi as usize,
            })
        };
        for value in 0..=300u32 {
            let inside = ranges.iter().any(|r| r.lo <= value && value <= r.hi);
            let expected = if inside { Ok(()) } else { refusal(value) };
            assert_eq!(field.check(value), expected);
            assert_eq!(validate(field.name(), value, &ranges), expected);
        }
        assert_eq!(field.check(u32::MAX), refusal(u32::MAX));
    }
}

#[test]
fn field_table() {
    assert_eq!(Field::SampleIndex.name(), "sample_index");
    assert_eq!(Field::SampleIndex.primary(), Range { lo: 0, hi: 99 });
    assert_eq!(Field::BitDepth.name(), "bit_depth");
    assert_eq!(Field::BitDepth.primary(), Range { lo: 8, hi: 16 });
    assert_eq!(Field::PatternIndex.name(), "pattern_index");
    assert_eq!(Field::PatternIndex.primary(), Range { lo: 0, hi: 9 });
    assert_eq!(Field::PartIndex.name(), "part_index");
    assert_eq!(Field::PartIndex.primary(), Range { lo: 0, hi: 9 });
    assert_eq!(Field::Level.primary(), Range { lo: 0, hi: 127 });
    assert_eq!(Field::Pan.primary(), Range { lo: 1, hi: 127 });
    assert_eq!(Field::PitchEgInt.primary(), Range { lo: 1, hi: 127 });
    assert_eq!(Field::Speed.name(), "speed");
    assert_eq!(Field::Speed.primary(), Range { lo: 40, hi: 88 });
    assert_eq!(Field::Speed.secondary(), Some(Range { lo: 129, hi: 255 }));
    for field in FIELDS {
        if field != Field::Speed {
            assert_eq!(field.secondary(), None);
        }
    }
}
