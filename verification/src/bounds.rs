//! Bounded fields: every numeric parameter of the sampler takes its values
//! from one inclusive range, or from one of two ranges that do not touch.
use vstd::prelude::*;
use crate::error::SyroError;

verus! {

/// An inclusive range of values.
#[derive(Clone, Copy, Debug, PartialEq, Eq, Structural)]
pub struct Range {
    pub lo: u32,
    pub hi: u32,
}

impl Range {
    /// Whether `value` lies in the range, its two ends included.
    pub open spec fn contains(self, value: u32) -> bool {
        self.lo <= value <= self.hi
    }
}

/// Whether `value` lies in at least one of `ranges`.
pub open spec fn in_any(ranges: Seq<Range>, value: u32) -> bool {
    exists|i: int| 0 <= i < ranges.len() && (#[trigger] ranges[i]).contains(value)
}

/// The error that reports `value` as refused for the field `name`, citing
/// the bounds of `range`.
pub open spec fn out_of_bounds(name: &'static str, value: u32, range: Range) -> SyroError {
    SyroError::OutOfBounds { val: value, name, lo: range.lo as usize, hi: range.hi as usize }
}

/// Checks `value` against the ranges declared for the field `name`.
///
/// The ranges are tried in order and the first that holds the value wins.
/// A value that no range holds is refused, and the error cites the bounds of
/// the first range.
pub fn validate(name: &'static str, value: u32, ranges: &[Range]) -> (r: Result<(), SyroError>)
    requires
        ranges@.len() > 0,
    ensures
        r is Ok <==> in_any(ranges@, value),
        r matches Err(e) ==> e == out_of_bounds(name, value, ranges@[0]),
{
    let mut i: usize = 0;
    while i < ranges.len()
        invariant
            0 <= i <= ranges@.len(),
            forall|j: int| 0 <= j < i ==> !(#[trigger] ranges@[j]).contains(value),
        decreases ranges@.len() - i,
    {
        if ranges[i].lo <= value && value <= ranges[i].hi {
            return Ok(());
        }
        i += 1;
    }
    let first = ranges[0];
    Err(SyroError::OutOfBounds { val: value, name, lo: first.lo as usize, hi: first.hi as usize })
}

/// The numeric fields that the library checks, each with its name and its
/// valid ranges.
#[derive(Clone, Copy, Debug, PartialEq, Eq, Structural)]
pub enum Field {
    SampleIndex,
    BitDepth,
    PatternIndex,
    PartIndex,
    Level,
    Pan,
    Speed,
    AmpEgAttack,
    AmpEgDecay,
    PitchEgInt,
    PitchEgAttack,
    PitchEgDecay,
    StartingPoint,
    Length,
    HiCut,
}

impl Field {
    /// The name under which errors report the field.
    pub open spec fn spec_name(self) -> &'static str {
        match self {
            Field::SampleIndex => "sample_index",
            Field::BitDepth => "bit_depth",
            Field::PatternIndex => "pattern_index",
            Field::PartIndex => "part_index",
            Field::Level => "level",
            Field::Pan => "pan",
            Field::Speed => "speed",
            Field::AmpEgAttack => "amp_eg_attack",
            Field::AmpEgDecay => "amp_eg_decay",
            Field::PitchEgInt => "pitch_eg_int",
            Field::PitchEgAttack => "pitch_eg_attack",
            Field::PitchEgDecay => "pitch_eg_decay",
            Field::StartingPoint => "starting_point",
            Field::Length => "length",
            Field::HiCut => "hi_cut",
        }
    }

    /// The first range of the field, which every field has.
    pub open spec fn spec_primary(self) -> Range {
        match self {
            Field::SampleIndex => Range { lo: 0, hi: 99 },
            Field::BitDepth => Range { lo: 8, hi: 16 },
            Field::PatternIndex => Range { lo: 0, hi: 9 },
            Field::PartIndex => Range { lo: 0, hi: 9 },
            Field::Level => Range { lo: 0, hi: 127 },
            Field::Pan => Range { lo: 1, hi: 127 },
            Field::Speed => Range { lo: 40, hi: 88 },
            Field::AmpEgAttack => Range { lo: 0, hi: 127 },
            Field::AmpEgDecay => Range { lo: 0, hi: 127 },
            Field::PitchEgInt => Range { lo: 1, hi: 127 },
            Field::PitchEgAttack => Range { lo: 0, hi: 127 },
            Field::PitchEgDecay => Range { lo: 0, hi: 127 },
            Field::StartingPoint => Range { lo: 0, hi: 127 },
            Field::Length => Range { lo: 0, hi: 127 },
            Field::HiCut => Range { lo: 0, hi: 127 },
        }
    }

    /// The second range, for the fields that have one: speed is given in
    /// semitones (the first range) or as a continuous rate (the second).
    pub open spec fn spec_secondary(self) -> Option<Range> {
        match self {
            Field::Speed => Some(Range { lo: 129, hi: 255 }),
            _ => None,
        }
    }

    /// All ranges of the field, in the order in which they are tried.
    pub open spec fn spec_ranges(self) -> Seq<Range> {
        match self.spec_secondary() {
            Some(second) => seq![self.spec_primary(), second],
            None => seq![self.spec_primary()],
        }
    }

    /// Whether the field takes `value`.
    pub open spec fn admits(self, value: u32) -> bool {
        self.spec_primary().contains(value) || match self.spec_secondary() {
            Some(second) => second.contains(value),
            None => false,
        }
    }

    /// The error with which the field refuses `value`.
    pub open spec fn rejection(self, value: u32) -> SyroError {
        out_of_bounds(self.spec_name(), value, self.spec_primary())
    }

    /// The name under which errors report the field.
    pub fn name(self) -> (r: &'static str)
        ensures
            r == self.spec_name(),
    {
        match self {
            Field::SampleIndex => "sample_index",
            Field::BitDepth => "bit_depth",
            Field::PatternIndex => "pattern_index",
            Field::PartIndex => "part_index",
            Field::Level => "level",
            Field::Pan => "pan",
            Field::Speed => "speed",
            Field::AmpEgAttack => "amp_eg_attack",
            Field::AmpEgDecay => "amp_eg_decay",
            Field::PitchEgInt => "pitch_eg_int",
            Field::PitchEgAttack => "pitch_eg_attack",
            Field::PitchEgDecay => "pitch_eg_decay",
            Field::StartingPoint => "starting_point",
            Field::Length => "length",
            Field::HiCut => "hi_cut",
        }
    }

    /// The first range of the field.
    pub fn primary(self) -> (r: Range)
        ensures
            r == self.spec_primary(),
    {
        match self {
            Field::SampleIndex => Range { lo: 0, hi: 99 },
            Field::BitDepth => Range { lo: 8, hi: 16 },
            Field::PatternIndex | Field::PartIndex => Range { lo: 0, hi: 9 },
            Field::Pan | Field::PitchEgInt => Range { lo: 1, hi: 127 },
            Field::Speed => Range { lo: 40, hi: 88 },
            Field::Level
            | Field::AmpEgAttack
            | Field::AmpEgDecay
            | Field::PitchEgAttack
            | Field::PitchEgDecay
            | Field::StartingPoint
            | Field::Length
            | Field::HiCut => Range { lo: 0, hi: 127 },
        }
    }

    /// The second range of the field, if it has one.
    pub fn secondary(self) -> (r: Option<Range>)
        ensures
            r == self.spec_secondary(),
    {
        match self {
            Field::Speed => Some(Range { lo: 129, hi: 255 }),
            _ => None,
        }
    }

    /// The ranges of the field as a list that [`validate`] takes.
    pub fn ranges(self) -> (r: Vec<Range>)
        ensures
            r@ == self.spec_ranges(),
    {
        let mut list: Vec<Range> = Vec::new();
        list.push(self.primary());
        match self.secondary() {
            Some(second) => {
                list.push(second);
            },
            None => {},
        }
        list
    }

    /// Checks `value` against the field's ranges: it passes exactly when the
    /// field admits it, and is refused with the field's name and the bounds
    /// of its first range otherwise.
    pub fn check(self, value: u32) -> (r: Result<(), SyroError>)
        ensures
            r is Ok <==> self.admits(value),
            r matches Err(e) ==> e == self.rejection(value),
    {
        proof {
            lemma_admits_any(self, value);
        }
        let first = self.primary();
        match self.secondary() {
            Some(second) => {
                let both = [first, second];
                assert(both@ =~= self.spec_ranges());
                validate(self.name(), value, both.as_slice())
            },
            None => {
                let only = [first];
                assert(only@ =~= self.spec_ranges());
                validate(self.name(), value, only.as_slice())
            },
        }
    }
}

/// A field admits exactly the values that lie in one of its ranges.
pub proof fn lemma_admits_any(field: Field, value: u32)
    ensures
        field.admits(value) <==> in_any(field.spec_ranges(), value),
{
    let ranges = field.spec_ranges();
    if field.spec_primary().contains(value) {
        assert(ranges[0].contains(value));
    }
}

/// Every field takes both ends of each of its ranges, no range is empty,
/// and where there are two they lie apart, the first below the second.
pub proof fn lemma_field_ends(field: Field)
    ensures
        field.spec_primary().lo <= field.spec_primary().hi,
        field.admits(field.spec_primary().lo),
        field.admits(field.spec_primary().hi),
        field.spec_secondary() matches Some(second) ==> second.lo <= second.hi
            && field.spec_primary().hi + 1 < second.lo && field.admits(second.lo) && field.admits(
            second.hi,
        ) && !field.admits((field.spec_primary().hi + 1) as u32),
{
}

/// Both ends of every range in a list are values that the list accepts,
/// and a value below or above every range is one that it refuses.
pub proof fn lemma_range_ends(ranges: Seq<Range>, i: int, value: u32)
    requires
        0 <= i < ranges.len(),
        ranges[i].lo <= ranges[i].hi,
    ensures
        in_any(ranges, ranges[i].lo),
        in_any(ranges, ranges[i].hi),
        (forall|j: int| 0 <= j < ranges.len() ==> value < ranges[j].lo || ranges[j].hi < value)
            ==> !in_any(ranges, value),
{
}

} // verus!
