//! The sequencer pattern of the Volca Sample: ten parts of sixteen steps,
//! each part with its sample, its knob settings and its motion sequences,
//! and the exact bytes in which the sampler expects all of it.
use vstd::prelude::*;
use crate::bounds::Field;
use crate::bytes::append;
use crate::bytes::append_le16;
use crate::bytes::append_le32;
use crate::bytes::concat;
use crate::bytes::le16;
use crate::bytes::le32;
use crate::bytes::lemma_concat_len;
use crate::bytes::lemma_concat_row;
use crate::bytes::lemma_concat_step;
use crate::bytes::lemma_concat_zeros;
use crate::bytes::zeros;
use crate::error::SyroError;

verus! {

/// Parts in a pattern.
pub const NUM_OF_PART: usize = 10;

/// Steps in a part.
pub const NUM_OF_STEP: usize = 16;

/// Knob parameters of a part.
pub const NUM_OF_PARAM: usize = 11;

/// Motion sequences of a part.
pub const NUM_OF_MOTION: usize = 14;

/// Bytes that one part takes in a pattern.
pub const PART_SIZE: usize = 256;

/// Bytes of a whole pattern.
pub const PATTERN_SIZE: usize = 2624;

/// The four bytes `PTST` that open a pattern, read as a little-endian number.
pub const PATTERN_HEADER: u32 = 0x54535450;

/// The four bytes `PTED` that close a pattern, read as a little-endian number.
pub const PATTERN_FOOTER: u32 = 0x44455450;

/// The device code of the Volca Sample.
pub const PATTERN_DEVCODE: u16 = 0x33b8;

/// Defines the available steps
#[derive(Copy, Clone, Debug, PartialEq, Eq, Structural)]
pub enum Step {
    One,
    Two,
    Three,
    Four,
    Five,
    Six,
    Seven,
    Eight,
    Nine,
    Ten,
    Eleven,
    Twelve,
    Thirteen,
    Fourteen,
    Fifteen,
    Sixteen,
}

impl Step {
    /// The bit that stands for the step: bit 0 for step one, bit 15 for
    /// step sixteen.
    pub open spec fn spec_bit(self) -> u16 {
        match self {
            Step::One => 0,
            Step::Two => 1,
            Step::Three => 2,
            Step::Four => 3,
            Step::Five => 4,
            Step::Six => 5,
            Step::Seven => 6,
            Step::Eight => 7,
            Step::Nine => 8,
            Step::Ten => 9,
            Step::Eleven => 10,
            Step::Twelve => 11,
            Step::Thirteen => 12,
            Step::Fourteen => 13,
            Step::Fifteen => 14,
            Step::Sixteen => 15,
        }
    }

    /// The mask with the step's bit alone.
    pub open spec fn spec_bitmask(self) -> u16 {
        1u16 << self.spec_bit()
    }

    pub fn bit(self) -> (r: u16)
        ensures
            r == self.spec_bit(),
            r < 16,
    {
        match self {
            Step::One => 0,
            Step::Two => 1,
            Step::Three => 2,
            Step::Four => 3,
            Step::Five => 4,
            Step::Six => 5,
            Step::Seven => 6,
            Step::Eight => 7,
            Step::Nine => 8,
            Step::Ten => 9,
            Step::Eleven => 10,
            Step::Twelve => 11,
            Step::Thirteen => 12,
            Step::Fourteen => 13,
            Step::Fifteen => 14,
            Step::Sixteen => 15,
        }
    }

    pub fn to_bitmask(self) -> (r: u16)
        ensures
            r == self.spec_bitmask(),
    {
        1u16 << self.bit()
    }

    /// The step that `number` stands for, counted from 0 for step one;
    /// there is none from 16 on.
    pub fn try_from_primitive(number: u8) -> (r: Option<Step>)
        ensures
            r is Some <==> number < 16,
            r matches Some(step) ==> step.spec_bit() == number,
    {
        match number {
            0 => Some(Step::One),
            1 => Some(Step::Two),
            2 => Some(Step::Three),
            3 => Some(Step::Four),
            4 => Some(Step::Five),
            5 => Some(Step::Six),
            6 => Some(Step::Seven),
            7 => Some(Step::Eight),
            8 => Some(Step::Nine),
            9 => Some(Step::Ten),
            10 => Some(Step::Eleven),
            11 => Some(Step::Twelve),
            12 => Some(Step::Thirteen),
            13 => Some(Step::Fourteen),
            14 => Some(Step::Fifteen),
            15 => Some(Step::Sixteen),
            _ => None,
        }
    }
}

/// Whether the bit of `step` is set in `mask`.
pub open spec fn has_step(mask: u16, step: Step) -> bool {
    mask & step.spec_bitmask() != 0
}

/// Builder for a step sequence
#[derive(Copy, Clone, Debug)]
pub struct Steps {
    steps: u16,
}

impl View for Steps {
    type V = u16;

    /// The bit map of the steps that are on.
    closed spec fn view(&self) -> u16 {
        self.steps
    }
}

impl Steps {
    pub fn builder() -> (r: Self)
        ensures
            r@ == 0,
    {
        Self { steps: 0 }
    }

    /// Turns on the step
    pub fn on(&mut self, step: Step) -> (r: &mut Self)
        ensures
            r@ == old(self)@ | step.spec_bitmask(),
            *final(r) == *final(self),
    {
        self.steps |= step.to_bitmask();
        self
    }

    pub fn build(self) -> (r: Self)
        ensures
            r == self,
    {
        self
    }

    pub fn to_bytes(self) -> (r: u16)
        ensures
            r == self@,
    {
        self.steps
    }
}

/// Turning a step on sets that step and leaves every other step as it was;
/// in a map that is all zero no step is on.
pub proof fn lemma_on_sets_one_step(mask: u16, step: Step, other: Step)
    ensures
        has_step(mask | step.spec_bitmask(), other) == (has_step(mask, other) || other == step),
        !has_step(0, other),
{
    let i = step.spec_bit();
    let j = other.spec_bit();
    assert(((mask | (1u16 << i)) & (1u16 << j) != 0) == ((mask & (1u16 << j) != 0) || i == j))
        by (bit_vector)
        requires
            i < 16,
            j < 16,
    ;
    assert(0u16 & (1u16 << j) == 0) by (bit_vector);
}

/// Defines a toggle value
#[derive(Copy, Clone, Debug, PartialEq, Eq, Structural)]
pub enum Toggle {
    On,
    Off,
}

/// The knob parameters of a part, in the order of the parameter table.
#[derive(Copy, Clone, Debug, PartialEq, Eq, Structural)]
pub enum Param {
    Level,
    Pan,
    Speed,
    AmpEgAttack,
    AmpEgDecay,
    PitchEgInt,
    PitchEgAttack,
    PitchEgDecay,
    StartPoint,
    Length,
    HiCut,
}

impl Param {
    /// The parameter's place in the parameter table.
    pub open spec fn spec_offset(self) -> int {
        match self {
            Param::Level => 0,
            Param::Pan => 1,
            Param::Speed => 2,
            Param::AmpEgAttack => 3,
            Param::AmpEgDecay => 4,
            Param::PitchEgInt => 5,
            Param::PitchEgAttack => 6,
            Param::PitchEgDecay => 7,
            Param::StartPoint => 8,
            Param::Length => 9,
            Param::HiCut => 10,
        }
    }

    /// The bounded field that decides which values the parameter takes.
    pub open spec fn spec_field(self) -> Field {
        match self {
            Param::Level => Field::Level,
            Param::Pan => Field::Pan,
            Param::Speed => Field::Speed,
            Param::AmpEgAttack => Field::AmpEgAttack,
            Param::AmpEgDecay => Field::AmpEgDecay,
            Param::PitchEgInt => Field::PitchEgInt,
            Param::PitchEgAttack => Field::PitchEgAttack,
            Param::PitchEgDecay => Field::PitchEgDecay,
            Param::StartPoint => Field::StartingPoint,
            Param::Length => Field::Length,
            Param::HiCut => Field::HiCut,
        }
    }

    pub fn offset(self) -> (r: usize)
        ensures
            r == self.spec_offset(),
            r < NUM_OF_PARAM,
    {
        match self {
            Param::Level => 0,
            Param::Pan => 1,
            Param::Speed => 2,
            Param::AmpEgAttack => 3,
            Param::AmpEgDecay => 4,
            Param::PitchEgInt => 5,
            Param::PitchEgAttack => 6,
            Param::PitchEgDecay => 7,
            Param::StartPoint => 8,
            Param::Length => 9,
            Param::HiCut => 10,
        }
    }

    pub fn field(self) -> (r: Field)
        ensures
            r == self.spec_field(),
    {
        match self {
            Param::Level => Field::Level,
            Param::Pan => Field::Pan,
            Param::Speed => Field::Speed,
            Param::AmpEgAttack => Field::AmpEgAttack,
            Param::AmpEgDecay => Field::AmpEgDecay,
            Param::PitchEgInt => Field::PitchEgInt,
            Param::PitchEgAttack => Field::PitchEgAttack,
            Param::PitchEgDecay => Field::PitchEgDecay,
            Param::StartPoint => Field::StartingPoint,
            Param::Length => Field::Length,
            Param::HiCut => Field::HiCut,
        }
    }
}

/// The motion sequences of a part, in the order of the motion table.
#[derive(Copy, Clone, Debug, PartialEq, Eq, Structural)]
pub enum MotionSeq {
    LevelStart,
    LevelEnd,
    PanStart,
    PanEnd,
    SpeedStart,
    SpeedEnd,
    AmpEgAttack,
    AmpEgDecay,
    PitchEgInt,
    PitchEgAttack,
    PitchEgDecay,
    StartPoint,
    Length,
    HiCut,
}

impl MotionSeq {
    /// The sequence's row in the motion table.
    pub open spec fn spec_row(self) -> int {
        match self {
            MotionSeq::LevelStart => 0,
            MotionSeq::LevelEnd => 1,
            MotionSeq::PanStart => 2,
            MotionSeq::PanEnd => 3,
            MotionSeq::SpeedStart => 4,
            MotionSeq::SpeedEnd => 5,
            MotionSeq::AmpEgAttack => 6,
            MotionSeq::AmpEgDecay => 7,
            MotionSeq::PitchEgInt => 8,
            MotionSeq::PitchEgAttack => 9,
            MotionSeq::PitchEgDecay => 10,
            MotionSeq::StartPoint => 11,
            MotionSeq::Length => 12,
            MotionSeq::HiCut => 13,
        }
    }

    /// The bounded field that decides which values an entry of the sequence
    /// takes: the one of the knob that the sequence moves.
    pub open spec fn spec_field(self) -> Field {
        match self {
            MotionSeq::LevelStart => Field::Level,
            MotionSeq::LevelEnd => Field::Level,
            MotionSeq::PanStart => Field::Pan,
            MotionSeq::PanEnd => Field::Pan,
            MotionSeq::SpeedStart => Field::Speed,
            MotionSeq::SpeedEnd => Field::Speed,
            MotionSeq::AmpEgAttack => Field::AmpEgAttack,
            MotionSeq::AmpEgDecay => Field::AmpEgDecay,
            MotionSeq::PitchEgInt => Field::PitchEgInt,
            MotionSeq::PitchEgAttack => Field::PitchEgAttack,
            MotionSeq::PitchEgDecay => Field::PitchEgDecay,
            MotionSeq::StartPoint => Field::StartingPoint,
            MotionSeq::Length => Field::Length,
            MotionSeq::HiCut => Field::HiCut,
        }
    }

    pub fn row(self) -> (r: usize)
        ensures
            r == self.spec_row(),
            r < NUM_OF_MOTION,
    {
        match self {
            MotionSeq::LevelStart => 0,
            MotionSeq::LevelEnd => 1,
            MotionSeq::PanStart => 2,
            MotionSeq::PanEnd => 3,
            MotionSeq::SpeedStart => 4,
            MotionSeq::SpeedEnd => 5,
            MotionSeq::AmpEgAttack => 6,
            MotionSeq::AmpEgDecay => 7,
            MotionSeq::PitchEgInt => 8,
            MotionSeq::PitchEgAttack => 9,
            MotionSeq::PitchEgDecay => 10,
            MotionSeq::StartPoint => 11,
            MotionSeq::Length => 12,
            MotionSeq::HiCut => 13,
        }
    }

    pub fn field(self) -> (r: Field)
        ensures
            r == self.spec_field(),
    {
        match self {
            MotionSeq::LevelStart | MotionSeq::LevelEnd => Field::Level,
            MotionSeq::PanStart | MotionSeq::PanEnd => Field::Pan,
            MotionSeq::SpeedStart | MotionSeq::SpeedEnd => Field::Speed,
            MotionSeq::AmpEgAttack => Field::AmpEgAttack,
            MotionSeq::AmpEgDecay => Field::AmpEgDecay,
            MotionSeq::PitchEgInt => Field::PitchEgInt,
            MotionSeq::PitchEgAttack => Field::PitchEgAttack,
            MotionSeq::PitchEgDecay => Field::PitchEgDecay,
            MotionSeq::StartPoint => Field::StartingPoint,
            MotionSeq::Length => Field::Length,
            MotionSeq::HiCut => Field::HiCut,
        }
    }
}

/// The switches of a part, one bit each in its function byte.
#[derive(Copy, Clone, Debug, PartialEq, Eq, Structural)]
pub enum Func {
    Motion,
    Loop,
    Reverb,
    Reverse,
    Mute,
}

impl Func {
    /// The switch's bit in the function byte.
    pub open spec fn spec_mask(self) -> u8 {
        match self {
            Func::Motion => 0x01,
            Func::Loop => 0x02,
            Func::Reverb => 0x04,
            Func::Reverse => 0x08,
            Func::Mute => 0x10,
        }
    }

    /// Whether the bit is set when the switch is put to `value`. The sampler
    /// reads the mute bit the other way round: a set bit means "not muted".
    pub open spec fn spec_raises(self, value: Toggle) -> bool {
        match self {
            Func::Mute => value == Toggle::Off,
            _ => value == Toggle::On,
        }
    }

    pub fn mask(self) -> (r: u8)
        ensures
            r == self.spec_mask(),
    {
        match self {
            Func::Motion => 0x01,
            Func::Loop => 0x02,
            Func::Reverb => 0x04,
            Func::Reverse => 0x08,
            Func::Mute => 0x10,
        }
    }

    pub fn raises(self, value: Toggle) -> (r: bool)
        ensures
            r == self.spec_raises(value),
    {
        match (self, value) {
            (Func::Mute, Toggle::Off) => true,
            (Func::Mute, Toggle::On) => false,
            (_, Toggle::On) => true,
            (_, Toggle::Off) => false,
        }
    }
}

/// The function byte `flags` after the switch `func` was put to `value`:
/// the switch's bit is set or cleared, the other bits stay.
pub open spec fn toggled(flags: u8, func: Func, value: Toggle) -> u8 {
    if func.spec_raises(value) {
        flags | func.spec_mask()
    } else {
        flags & !func.spec_mask()
    }
}

/// Whether the bit of `func` is set in `flags`.
pub open spec fn has_func(flags: u8, func: Func) -> bool {
    flags & func.spec_mask() != 0
}

/// Putting a switch to the same value twice is the same as doing it once.
pub proof fn lemma_toggle_idempotent(flags: u8, func: Func, value: Toggle)
    ensures
        toggled(toggled(flags, func, value), func, value) == toggled(flags, func, value),
        has_func(toggled(flags, func, value), func) == func.spec_raises(value),
{
    let m = func.spec_mask();
    assert((flags | m) | m == flags | m) by (bit_vector);
    assert((flags & !m) & !m == flags & !m) by (bit_vector);
    assert((flags & !m) & m == 0) by (bit_vector);
    assert(m != 0 ==> (flags | m) & m != 0) by (bit_vector);
}

/// A switch leaves the bits of every other switch alone, and two different
/// switches can be put in either order.
pub proof fn lemma_toggle_independent(flags: u8, f: Func, v: Toggle, g: Func, w: Toggle)
    requires
        f != g,
    ensures
        has_func(toggled(flags, f, v), g) == has_func(flags, g),
        toggled(toggled(flags, f, v), g, w) == toggled(toggled(flags, g, w), f, v),
{
    let m = f.spec_mask();
    let n = g.spec_mask();
    assert(m & n == 0) by {
        assert(0x01u8 & 0x02u8 == 0 && 0x01u8 & 0x04u8 == 0 && 0x01u8 & 0x08u8 == 0 && 0x01u8
            & 0x10u8 == 0 && 0x02u8 & 0x04u8 == 0 && 0x02u8 & 0x08u8 == 0 && 0x02u8 & 0x10u8 == 0
            && 0x04u8 & 0x08u8 == 0 && 0x04u8 & 0x10u8 == 0 && 0x08u8 & 0x10u8 == 0)
            by (bit_vector);
        assert(forall|a: u8, b: u8| #[trigger] (a & b) == b & a) by (bit_vector);
    }
    assert(m & n == 0 ==> (flags | m) & n == flags & n && (flags & !m) & n == flags & n)
        by (bit_vector);
    assert(m & n == 0 ==> (flags | m) | n == (flags | n) | m && (flags | m) & !n == (flags & !n)
        | m && (flags & !m) | n == (flags | n) & !m && (flags & !m) & !n == (flags & !n) & !m)
        by (bit_vector);
}

/// The knob settings with which a part starts out.
pub open spec fn initial_params() -> Seq<u8> {
    seq![127u8, 64u8, 64u8, 0u8, 127u8, 64u8, 0u8, 127u8, 0u8, 127u8, 127u8]
}

/// What a part holds, field by field in the order of the record.
pub struct PartView {
    pub sample_num: u16,
    pub step_on: u16,
    pub accent: u16,
    pub reserved: u16,
    pub level: u8,
    pub param: Seq<u8>,
    pub func_memory_part: u8,
    pub padding1: Seq<u8>,
    pub motion: Seq<Seq<u8>>,
}

impl PartView {
    /// The part as it starts out for a sample: no step on, the knobs in
    /// their rest positions, not muted, no motion recorded.
    pub open spec fn initial(sample_num: u16) -> PartView {
        PartView {
            sample_num,
            step_on: 0,
            accent: 0,
            reserved: 0,
            level: 127,
            param: initial_params(),
            func_memory_part: 0x10,
            padding1: zeros(11),
            motion: Seq::new(14, |m: int| zeros(16)),
        }
    }

    /// The tables have the sizes of the record.
    pub open spec fn shaped(self) -> bool {
        &&& self.param.len() == 11
        &&& self.padding1.len() == 11
        &&& self.motion.len() == 14
        &&& forall|m: int| 0 <= m < 14 ==> (#[trigger] self.motion[m]).len() == 16
    }

    /// What holds of every part: the sample exists, what the sampler does
    /// not support is at its fixed value, reserved bytes and bits are zero,
    /// every knob setting is one that its field admits, and every entry of
    /// a motion sequence is zero (nothing recorded) or such a value.
    pub open spec fn wf(self) -> bool {
        &&& self.shaped()
        &&& self.sample_num <= 99
        &&& self.accent == 0
        &&& self.reserved == 0
        &&& self.level == 127
        &&& self.padding1 == zeros(11)
        &&& self.func_memory_part & 0xe0 == 0
        &&& forall|p: Param| (#[trigger] p.spec_field()).admits(self.param[p.spec_offset()] as u32)
        &&& forall|q: MotionSeq, k: int|
            0 <= k < 16 ==> {
                let entry = #[trigger] self.motion[q.spec_row()][k];
                entry == 0 || q.spec_field().admits(entry as u32)
            }
    }

    /// The part with one knob set.
    pub open spec fn with_param(self, param: Param, value: u8) -> PartView {
        PartView { param: self.param.update(param.spec_offset(), value), ..self }
    }

    /// The part with one motion sequence replaced.
    pub open spec fn with_motion(self, motion: MotionSeq, sequence: Seq<u8>) -> PartView {
        PartView { motion: self.motion.update(motion.spec_row(), sequence), ..self }
    }

    /// The part with one switch put to `value`.
    pub open spec fn with_func(self, func: Func, value: Toggle) -> PartView {
        PartView { func_memory_part: toggled(self.func_memory_part, func, value), ..self }
    }

    /// The part with its step map replaced.
    pub open spec fn with_steps(self, steps: u16) -> PartView {
        PartView { step_on: steps, ..self }
    }

    /// The bytes of the part as the sampler expects them: the fields in the
    /// order of the record, numbers with their low byte first.
    pub open spec fn bytes(self) -> Seq<u8> {
        le16(self.sample_num) + le16(self.step_on) + le16(self.accent) + le16(self.reserved)
            + seq![self.level] + self.param + seq![self.func_memory_part] + self.padding1
            + concat(self.motion)
    }
}

/// A part that starts out for a sample that exists is well formed.
pub proof fn lemma_initial_wf(sample_num: u16)
    requires
        sample_num <= 99,
    ensures
        PartView::initial(sample_num).wf(),
{
    let v = PartView::initial(sample_num);
    assert(0x10u8 & 0xe0 == 0) by (bit_vector);
    assert forall|p: Param| (#[trigger] p.spec_field()).admits(v.param[p.spec_offset()] as u32) by {
        match p {
            Param::Level => {},
            Param::Pan => {},
            Param::Speed => {},
            Param::AmpEgAttack => {},
            Param::AmpEgDecay => {},
            Param::PitchEgInt => {},
            Param::PitchEgAttack => {},
            Param::PitchEgDecay => {},
            Param::StartPoint => {},
            Param::Length => {},
            Param::HiCut => {},
        }
    }
}

/// The same laws for a part as a whole: putting a switch twice to one value
/// is putting it once, and two different switches can be put in either
/// order, neither undoing the other.
pub proof fn lemma_part_toggles(part: PartView, f: Func, v: Toggle, g: Func, w: Toggle)
    ensures
        part.with_func(f, v).with_func(f, v) == part.with_func(f, v),
        f != g ==> part.with_func(f, v).with_func(g, w) == part.with_func(g, w).with_func(f, v),
        f != g ==> has_func(part.with_func(f, v).with_func(g, w).func_memory_part, f)
            == f.spec_raises(v),
{
    lemma_toggle_idempotent(part.func_memory_part, f, v);
    if f != g {
        lemma_toggle_independent(part.func_memory_part, f, v, g, w);
        lemma_toggle_independent(toggled(part.func_memory_part, f, v), g, w, f, v);
    }
}

/// A part always takes the same number of bytes.
pub proof fn lemma_part_len(part: PartView)
    requires
        part.shaped(),
    ensures
        part.bytes().len() == PART_SIZE,
{
    lemma_concat_len(part.motion, 16);
}

/// Whether every entry of a motion sequence is a value that `field` admits.
pub open spec fn all_admitted(field: Field, sequence: Seq<u8>) -> bool {
    forall|k: int| 0 <= k < sequence.len() ==> field.admits(#[trigger] sequence[k] as u32)
}

/// Whether `k` is the place of the first entry of `sequence` that `field`
/// does not admit.
pub open spec fn first_refused(field: Field, sequence: Seq<u8>, k: int) -> bool {
    &&& 0 <= k < sequence.len()
    &&& !field.admits(sequence[k] as u32)
    &&& forall|j: int| 0 <= j < k ==> field.admits(#[trigger] sequence[j] as u32)
}

/// Defines a part of a sequence pattern
#[derive(Copy, Clone, Debug)]
pub struct Part {
    sample_num: u16,
    step_on: u16,
    accent: u16,
    reserved: u16,
    level: u8,
    param: [u8; 11],
    func_memory_part: u8,
    padding1: [u8; 11],
    motion: [[u8; 16]; 14],
}

impl View for Part {
    type V = PartView;

    closed spec fn view(&self) -> PartView {
        PartView {
            sample_num: self.sample_num,
            step_on: self.step_on,
            accent: self.accent,
            reserved: self.reserved,
            level: self.level,
            param: self.param@,
            func_memory_part: self.func_memory_part,
            padding1: self.padding1@,
            motion: Seq::new(14, |m: int| self.motion@[m]@),
        }
    }
}

impl Part {
    #[verifier::type_invariant]
    closed spec fn inv(self) -> bool {
        self@.wf()
    }

    /// The part as it starts out for the sample `sample_num`.
    fn initial(sample_num: u16) -> (part: Self)
        requires
            sample_num <= 99,
        ensures
            part@ == PartView::initial(sample_num),
            part@.wf(),
    {
        let param: [u8; 11] = [127, 64, 64, 0, 127, 64, 0, 127, 0, 127, 127];
        let padding1: [u8; 11] = [0u8; 11];
        let row: [u8; 16] = [0u8; 16];
        let motion: [[u8; 16]; 14] = [row; 14];
        proof {
            assert(padding1@ =~= zeros(11));
            assert(row@ =~= zeros(16));
            assert(Seq::new(14, |m: int| motion@[m]@) =~= Seq::new(14, |m: int| zeros(16)));
            lemma_initial_wf(sample_num);
        }
        let part = Self {
            sample_num,
            step_on: 0,
            accent: 0,
            reserved: 0,
            level: 127,
            param,
            func_memory_part: 0x10,
            padding1,
            motion,
        };
        part
    }

    /// Starts a part for the sample `sample_num`, which must be one of the
    /// sampler's hundred samples.
    pub fn for_sample(sample_num: u16) -> (r: Result<Self, SyroError>)
        ensures
            r is Ok <==> sample_num <= 99,
            r matches Ok(part) ==> part@ == PartView::initial(sample_num) && part@.wf(),
            r matches Err(e) ==> e == Field::SampleIndex.rejection(sample_num as u32),
    {
        match Field::SampleIndex.check(sample_num as u32) {
            Ok(()) => Ok(Self::initial(sample_num)),
            Err(e) => Err(e),
        }
    }

    /// Replaces the part's step map.
    pub fn with_steps(&mut self, steps: Steps) -> (r: &mut Self)
        ensures
            r@ == old(self)@.with_steps(steps@),
            r@.wf(),
            *final(r) == *final(self),
    {
        proof {
            use_type_invariant(&*self);
        }
        self.step_on = steps.to_bytes();
        self
    }

    /// Puts one switch of the part to `value`.
    pub fn toggle_func_memory_part(&mut self, func: Func, value: Toggle) -> (r: &mut Self)
        ensures
            r@ == old(self)@.with_func(func, value),
            r@.wf(),
            *final(r) == *final(self),
    {
        proof {
            use_type_invariant(&*self);
        }
        let mask = func.mask();
        let flags = self.func_memory_part;
        let next = if func.raises(value) {
            flags | mask
        } else {
            flags & !mask
        };
        proof {
            assert(mask & 0xe0 == 0) by {
                assert(0x01u8 & 0xe0 == 0 && 0x02u8 & 0xe0 == 0 && 0x04u8 & 0xe0 == 0 && 0x08u8
                    & 0xe0 == 0 && 0x10u8 & 0xe0 == 0) by (bit_vector);
            }
            assert(flags & 0xe0 == 0 && mask & 0xe0 == 0 ==> (flags | mask) & 0xe0 == 0 && (flags
                & !mask) & 0xe0 == 0) by (bit_vector);
        }
        self.func_memory_part = next;
        self
    }

    /// Sets one knob of the part, if the knob's field admits the value.
    /// A refused value leaves the part as it was.
    pub fn set_param(&mut self, param: Param, value: u8) -> (r: Result<&mut Self, SyroError>)
        ensures
            r is Ok <==> param.spec_field().admits(value as u32),
            r matches Ok(part) ==> part@ == old(self)@.with_param(param, value) && part@.wf()
                && *final(part) == *final(self),
            r matches Err(e) ==> e == param.spec_field().rejection(value as u32) && *final(self)
                == *old(self),
    {
        proof {
            use_type_invariant(&*self);
        }
        match param.field().check(value as u32) {
            Ok(()) => {},
            Err(e) => {
                return Err(e);
            },
        }
        let offset = param.offset();
        self.param[offset] = value;
        Ok(self)
    }

    /// Replaces one motion sequence of the part, if the field of the knob
    /// that it moves admits every entry. The entries are checked in order,
    /// and the first that is refused is the one reported; the part then
    /// stays as it was.
    pub fn set_motion(&mut self, motion: MotionSeq, sequence: [u8; 16]) -> (r: Result<
        &mut Self,
        SyroError,
    >)
        ensures
            r is Ok <==> all_admitted(motion.spec_field(), sequence@),
            r matches Ok(part) ==> part@ == old(self)@.with_motion(motion, sequence@) && part@.wf()
                && *final(part) == *final(self),
            r matches Err(e) ==> *final(self) == *old(self) && exists|k: int|
                first_refused(motion.spec_field(), sequence@, k) && e
                    == motion.spec_field().rejection(sequence@[k] as u32),
    {
        proof {
            use_type_invariant(&*self);
        }
        let field = motion.field();
        let mut k: usize = 0;
        while k < 16
            invariant
                0 <= k <= 16,
                field == motion.spec_field(),
                *self == *old(self),
                forall|j: int| 0 <= j < k ==> field.admits(#[trigger] sequence@[j] as u32),
            decreases 16 - k,
        {
            match field.check(sequence[k] as u32) {
                Ok(()) => {},
                Err(e) => {
                    assert(first_refused(field, sequence@, k as int));
                    return Err(e);
                },
            }
            k += 1;
        }
        let row = motion.row();
        let mut table = self.motion;
        table[row] = sequence;
        proof {
            let before = self@;
            let after = before.with_motion(motion, sequence@);
            assert(Seq::new(14, |m: int| table@[m]@) =~= after.motion);
            assert forall|q: MotionSeq, k: int| 0 <= k < 16 implies {
                let entry = #[trigger] after.motion[q.spec_row()][k];
                entry == 0 || q.spec_field().admits(entry as u32)
            } by {
                // every row but the new one is as it was
                if q != motion {
                    assert(after.motion[q.spec_row()][k] == before.motion[q.spec_row()][k]);
                }
            }
        }
        self.motion = table;
        Ok(self)
    }

    /// Switches the part's motion sequences on or off.
    pub fn motion(&mut self, value: Toggle) -> (r: &mut Self)
        ensures
            r@ == old(self)@.with_func(Func::Motion, value),
            r@.wf(),
            *final(r) == *final(self),
    {
        self.toggle_func_memory_part(Func::Motion, value)
    }

    /// Switches looping of the sample on or off.
    pub fn looped(&mut self, value: Toggle) -> (r: &mut Self)
        ensures
            r@ == old(self)@.with_func(Func::Loop, value),
            r@.wf(),
            *final(r) == *final(self),
    {
        self.toggle_func_memory_part(Func::Loop, value)
    }

    /// Switches the reverb on or off for the part.
    pub fn reverb(&mut self, value: Toggle) -> (r: &mut Self)
        ensures
            r@ == old(self)@.with_func(Func::Reverb, value),
            r@.wf(),
            *final(r) == *final(self),
    {
        self.toggle_func_memory_part(Func::Reverb, value)
    }

    /// Switches reverse playback on or off.
    pub fn reverse(&mut self, value: Toggle) -> (r: &mut Self)
        ensures
            r@ == old(self)@.with_func(Func::Reverse, value),
            r@.wf(),
            *final(r) == *final(self),
    {
        self.toggle_func_memory_part(Func::Reverse, value)
    }

    /// Mutes the part or lets it sound. The sampler keeps this switch the
    /// other way round, so muting clears the bit and unmuting sets it.
    pub fn mute(&mut self, value: Toggle) -> (r: &mut Self)
        ensures
            r@ == old(self)@.with_func(Func::Mute, value),
            r@.wf(),
            *final(r) == *final(self),
    {
        self.toggle_func_memory_part(Func::Mute, value)
    }

    /// Valid values are 0-127
    pub fn level(&mut self, level: u8) -> (r: Result<&mut Self, SyroError>)
        ensures
            r is Ok <==> Field::Level.admits(level as u32),
            r matches Ok(part) ==> part@ == old(self)@.with_param(Param::Level, level) && part@.wf()
                && *final(part) == *final(self),
            r matches Err(e) ==> e == Field::Level.rejection(level as u32) && *final(self)
                == *old(self),
    {
        self.set_param(Param::Level, level)
    }

    /// Valid values are 1-127
    pub fn pan(&mut self, pan: u8) -> (r: Result<&mut Self, SyroError>)
        ensures
            r is Ok <==> Field::Pan.admits(pan as u32),
            r matches Ok(part) ==> part@ == old(self)@.with_param(Param::Pan, pan) && part@.wf()
                && *final(part) == *final(self),
            r matches Err(e) ==> e == Field::Pan.rejection(pan as u32) && *final(self)
                == *old(self),
    {
        self.set_param(Param::Pan, pan)
    }

    /// Valid values are 40-88 for semitones, and 129-255 for continuous
    pub fn speed(&mut self, speed: u8) -> (r: Result<&mut Self, SyroError>)
        ensures
            r is Ok <==> Field::Speed.admits(speed as u32),
            r matches Ok(part) ==> part@ == old(self)@.with_param(Param::Speed, speed) && part@.wf()
                && *final(part) == *final(self),
            r matches Err(e) ==> e == Field::Speed.rejection(speed as u32) && *final(self)
                == *old(self),
    {
        self.set_param(Param::Speed, speed)
    }

    /// Valid values are 0-127
    pub fn amp_eg_attack(&mut self, amp_eg_attack: u8) -> (r: Result<&mut Self, SyroError>)
        ensures
            r is Ok <==> Field::AmpEgAttack.admits(amp_eg_attack as u32),
            r matches Ok(part) ==> part@ == old(self)@.with_param(Param::AmpEgAttack, amp_eg_attack) && part@.wf()
                && *final(part) == *final(self),
            r matches Err(e) ==> e == Field::AmpEgAttack.rejection(amp_eg_attack as u32) && *final(self)
                == *old(self),
    {
        self.set_param(Param::AmpEgAttack, amp_eg_attack)
    }

    /// Valid values are 0-127
    pub fn amp_eg_decay(&mut self, amp_eg_decay: u8) -> (r: Result<&mut Self, SyroError>)
        ensures
            r is Ok <==> Field::AmpEgDecay.admits(amp_eg_decay as u32),
            r matches Ok(part) ==> part@ == old(self)@.with_param(Param::AmpEgDecay, amp_eg_decay) && part@.wf()
                && *final(part) == *final(self),
            r matches Err(e) ==> e == Field::AmpEgDecay.rejection(amp_eg_decay as u32) && *final(self)
                == *old(self),
    {
        self.set_param(Param::AmpEgDecay, amp_eg_decay)
    }

    /// Valid values are 0-127
    pub fn pitch_eg_attack(&mut self, pitch_eg_attack: u8) -> (r: Result<&mut Self, SyroError>)
        ensures
            r is Ok <==> Field::PitchEgAttack.admits(pitch_eg_attack as u32),
            r matches Ok(part) ==> part@ == old(self)@.with_param(Param::PitchEgAttack, pitch_eg_attack) && part@.wf()
                && *final(part) == *final(self),
            r matches Err(e) ==> e == Field::PitchEgAttack.rejection(pitch_eg_attack as u32) && *final(self)
                == *old(self),
    {
        self.set_param(Param::PitchEgAttack, pitch_eg_attack)
    }

    /// Valid values are 1-127
    pub fn pitch_eg_int(&mut self, pitch_eg_int: u8) -> (r: Result<&mut Self, SyroError>)
        ensures
            r is Ok <==> Field::PitchEgInt.admits(pitch_eg_int as u32),
            r matches Ok(part) ==> part@ == old(self)@.with_param(Param::PitchEgInt, pitch_eg_int) && part@.wf()
                && *final(part) == *final(self),
            r matches Err(e) ==> e == Field::PitchEgInt.rejection(pitch_eg_int as u32) && *final(self)
                == *old(self),
    {
        self.set_param(Param::PitchEgInt, pitch_eg_int)
    }

    /// Valid values are 0-127
    pub fn pitch_eg_decay(&mut self, pitch_eg_decay: u8) -> (r: Result<&mut Self, SyroError>)
        ensures
            r is Ok <==> Field::PitchEgDecay.admits(pitch_eg_decay as u32),
            r matches Ok(part) ==> part@ == old(self)@.with_param(Param::PitchEgDecay, pitch_eg_decay) && part@.wf()
                && *final(part) == *final(self),
            r matches Err(e) ==> e == Field::PitchEgDecay.rejection(pitch_eg_decay as u32) && *final(self)
                == *old(self),
    {
        self.set_param(Param::PitchEgDecay, pitch_eg_decay)
    }

    /// Valid values are 0-127
    pub fn starting_point(&mut self, starting_point: u8) -> (r: Result<&mut Self, SyroError>)
        ensures
            r is Ok <==> Field::StartingPoint.admits(starting_point as u32),
            r matches Ok(part) ==> part@ == old(self)@.with_param(Param::StartPoint, starting_point) && part@.wf()
                && *final(part) == *final(self),
            r matches Err(e) ==> e == Field::StartingPoint.rejection(starting_point as u32) && *final(self)
                == *old(self),
    {
        self.set_param(Param::StartPoint, starting_point)
    }

    /// Valid values are 0-127
    pub fn length(&mut self, length: u8) -> (r: Result<&mut Self, SyroError>)
        ensures
            r is Ok <==> Field::Length.admits(length as u32),
            r matches Ok(part) ==> part@ == old(self)@.with_param(Param::Length, length) && part@.wf()
                && *final(part) == *final(self),
            r matches Err(e) ==> e == Field::Length.rejection(length as u32) && *final(self)
                == *old(self),
    {
        self.set_param(Param::Length, length)
    }

    /// Valid values are 0-127
    pub fn hi_cut(&mut self, hi_cut: u8) -> (r: Result<&mut Self, SyroError>)
        ensures
            r is Ok <==> Field::HiCut.admits(hi_cut as u32),
            r matches Ok(part) ==> part@ == old(self)@.with_param(Param::HiCut, hi_cut) && part@.wf()
                && *final(part) == *final(self),
            r matches Err(e) ==> e == Field::HiCut.rejection(hi_cut as u32) && *final(self)
                == *old(self),
    {
        self.set_param(Param::HiCut, hi_cut)
    }

    /// Valid values in the sequence are 0-127
    pub fn level_start_motion_seq(&mut self, sequence: [u8; 16]) -> (r: Result<&mut Self, SyroError>)
        ensures
            r is Ok <==> all_admitted(Field::Level, sequence@),
            r matches Ok(part) ==> part@ == old(self)@.with_motion(MotionSeq::LevelStart, sequence@)
                && part@.wf() && *final(part) == *final(self),
            r matches Err(e) ==> *final(self) == *old(self) && exists|k: int|
                first_refused(Field::Level, sequence@, k) && e == Field::Level.rejection(
                    sequence@[k] as u32,
                ),
    {
        self.set_motion(MotionSeq::LevelStart, sequence)
    }

    /// Valid values in the sequence are 0-127
    pub fn level_end_motion_seq(&mut self, sequence: [u8; 16]) -> (r: Result<&mut Self, SyroError>)
        ensures
            r is Ok <==> all_admitted(Field::Level, sequence@),
            r matches Ok(part) ==> part@ == old(self)@.with_motion(MotionSeq::LevelEnd, sequence@)
                && part@.wf() && *final(part) == *final(self),
            r matches Err(e) ==> *final(self) == *old(self) && exists|k: int|
                first_refused(Field::Level, sequence@, k) && e == Field::Level.rejection(
                    sequence@[k] as u32,
                ),
    {
        self.set_motion(MotionSeq::LevelEnd, sequence)
    }

    /// Valid values in the sequence are 1-127
    pub fn pan_start_motion_seq(&mut self, sequence: [u8; 16]) -> (r: Result<&mut Self, SyroError>)
        ensures
            r is Ok <==> all_admitted(Field::Pan, sequence@),
            r matches Ok(part) ==> part@ == old(self)@.with_motion(MotionSeq::PanStart, sequence@)
                && part@.wf() && *final(part) == *final(self),
            r matches Err(e) ==> *final(self) == *old(self) && exists|k: int|
                first_refused(Field::Pan, sequence@, k) && e == Field::Pan.rejection(
                    sequence@[k] as u32,
                ),
    {
        self.set_motion(MotionSeq::PanStart, sequence)
    }

    /// Valid values in the sequence are 1-127
    pub fn pan_end_motion_seq(&mut self, sequence: [u8; 16]) -> (r: Result<&mut Self, SyroError>)
        ensures
            r is Ok <==> all_admitted(Field::Pan, sequence@),
            r matches Ok(part) ==> part@ == old(self)@.with_motion(MotionSeq::PanEnd, sequence@)
                && part@.wf() && *final(part) == *final(self),
            r matches Err(e) ==> *final(self) == *old(self) && exists|k: int|
                first_refused(Field::Pan, sequence@, k) && e == Field::Pan.rejection(
                    sequence@[k] as u32,
                ),
    {
        self.set_motion(MotionSeq::PanEnd, sequence)
    }

    /// Valid values in the sequence are 40-88 for semitones, and 129-255 for continuous
    pub fn speed_start_motion_seq(&mut self, sequence: [u8; 16]) -> (r: Result<&mut Self, SyroError>)
        ensures
            r is Ok <==> all_admitted(Field::Speed, sequence@),
            r matches Ok(part) ==> part@ == old(self)@.with_motion(MotionSeq::SpeedStart, sequence@)
                && part@.wf() && *final(part) == *final(self),
            r matches Err(e) ==> *final(self) == *old(self) && exists|k: int|
                first_refused(Field::Speed, sequence@, k) && e == Field::Speed.rejection(
                    sequence@[k] as u32,
                ),
    {
        self.set_motion(MotionSeq::SpeedStart, sequence)
    }

    /// Valid values in the sequence are 40-88 for semitones, and 129-255 for continuous
    pub fn speed_end_motion_seq(&mut self, sequence: [u8; 16]) -> (r: Result<&mut Self, SyroError>)
        ensures
            r is Ok <==> all_admitted(Field::Speed, sequence@),
            r matches Ok(part) ==> part@ == old(self)@.with_motion(MotionSeq::SpeedEnd, sequence@)
                && part@.wf() && *final(part) == *final(self),
            r matches Err(e) ==> *final(self) == *old(self) && exists|k: int|
                first_refused(Field::Speed, sequence@, k) && e == Field::Speed.rejection(
                    sequence@[k] as u32,
                ),
    {
        self.set_motion(MotionSeq::SpeedEnd, sequence)
    }

    /// Valid values in the sequence are 0-127
    pub fn amp_eg_attack_motion_seq(&mut self, sequence: [u8; 16]) -> (r: Result<&mut Self, SyroError>)
        ensures
            r is Ok <==> all_admitted(Field::AmpEgAttack, sequence@),
            r matches Ok(part) ==> part@ == old(self)@.with_motion(MotionSeq::AmpEgAttack, sequence@)
                && part@.wf() && *final(part) == *final(self),
            r matches Err(e) ==> *final(self) == *old(self) && exists|k: int|
                first_refused(Field::AmpEgAttack, sequence@, k) && e == Field::AmpEgAttack.rejection(
                    sequence@[k] as u32,
                ),
    {
        self.set_motion(MotionSeq::AmpEgAttack, sequence)
    }

    /// Valid values in the sequence are 0-127
    pub fn amp_eg_decay_motion_seq(&mut self, sequence: [u8; 16]) -> (r: Result<&mut Self, SyroError>)
        ensures
            r is Ok <==> all_admitted(Field::AmpEgDecay, sequence@),
            r matches Ok(part) ==> part@ == old(self)@.with_motion(MotionSeq::AmpEgDecay, sequence@)
                && part@.wf() && *final(part) == *final(self),
            r matches Err(e) ==> *final(self) == *old(self) && exists|k: int|
                first_refused(Field::AmpEgDecay, sequence@, k) && e == Field::AmpEgDecay.rejection(
                    sequence@[k] as u32,
                ),
    {
        self.set_motion(MotionSeq::AmpEgDecay, sequence)
    }

    /// Valid values in the sequence are 1-127
    pub fn pitch_eg_int_motion_seq(&mut self, sequence: [u8; 16]) -> (r: Result<&mut Self, SyroError>)
        ensures
            r is Ok <==> all_admitted(Field::PitchEgInt, sequence@),
            r matches Ok(part) ==> part@ == old(self)@.with_motion(MotionSeq::PitchEgInt, sequence@)
                && part@.wf() && *final(part) == *final(self),
            r matches Err(e) ==> *final(self) == *old(self) && exists|k: int|
                first_refused(Field::PitchEgInt, sequence@, k) && e == Field::PitchEgInt.rejection(
                    sequence@[k] as u32,
                ),
    {
        self.set_motion(MotionSeq::PitchEgInt, sequence)
    }

    /// Valid values in the sequence are 0-127
    pub fn pitch_eg_attack_motion_seq(&mut self, sequence: [u8; 16]) -> (r: Result<&mut Self, SyroError>)
        ensures
            r is Ok <==> all_admitted(Field::PitchEgAttack, sequence@),
            r matches Ok(part) ==> part@ == old(self)@.with_motion(MotionSeq::PitchEgAttack, sequence@)
                && part@.wf() && *final(part) == *final(self),
            r matches Err(e) ==> *final(self) == *old(self) && exists|k: int|
                first_refused(Field::PitchEgAttack, sequence@, k) && e == Field::PitchEgAttack.rejection(
                    sequence@[k] as u32,
                ),
    {
        self.set_motion(MotionSeq::PitchEgAttack, sequence)
    }

    /// Valid values in the sequence are 0-127
    pub fn pitch_eg_decay_motion_seq(&mut self, sequence: [u8; 16]) -> (r: Result<&mut Self, SyroError>)
        ensures
            r is Ok <==> all_admitted(Field::PitchEgDecay, sequence@),
            r matches Ok(part) ==> part@ == old(self)@.with_motion(MotionSeq::PitchEgDecay, sequence@)
                && part@.wf() && *final(part) == *final(self),
            r matches Err(e) ==> *final(self) == *old(self) && exists|k: int|
                first_refused(Field::PitchEgDecay, sequence@, k) && e == Field::PitchEgDecay.rejection(
                    sequence@[k] as u32,
                ),
    {
        self.set_motion(MotionSeq::PitchEgDecay, sequence)
    }

    /// Valid values in the sequence are 0-127
    pub fn start_point_motion_seq(&mut self, sequence: [u8; 16]) -> (r: Result<&mut Self, SyroError>)
        ensures
            r is Ok <==> all_admitted(Field::StartingPoint, sequence@),
            r matches Ok(part) ==> part@ == old(self)@.with_motion(MotionSeq::StartPoint, sequence@)
                && part@.wf() && *final(part) == *final(self),
            r matches Err(e) ==> *final(self) == *old(self) && exists|k: int|
                first_refused(Field::StartingPoint, sequence@, k) && e == Field::StartingPoint.rejection(
                    sequence@[k] as u32,
                ),
    {
        self.set_motion(MotionSeq::StartPoint, sequence)
    }

    /// Valid values in the sequence are 0-127
    pub fn length_motion_seq(&mut self, sequence: [u8; 16]) -> (r: Result<&mut Self, SyroError>)
        ensures
            r is Ok <==> all_admitted(Field::Length, sequence@),
            r matches Ok(part) ==> part@ == old(self)@.with_motion(MotionSeq::Length, sequence@)
                && part@.wf() && *final(part) == *final(self),
            r matches Err(e) ==> *final(self) == *old(self) && exists|k: int|
                first_refused(Field::Length, sequence@, k) && e == Field::Length.rejection(
                    sequence@[k] as u32,
                ),
    {
        self.set_motion(MotionSeq::Length, sequence)
    }

    /// Valid values in the sequence are 0-127
    pub fn hi_cut_motion_seq(&mut self, sequence: [u8; 16]) -> (r: Result<&mut Self, SyroError>)
        ensures
            r is Ok <==> all_admitted(Field::HiCut, sequence@),
            r matches Ok(part) ==> part@ == old(self)@.with_motion(MotionSeq::HiCut, sequence@)
                && part@.wf() && *final(part) == *final(self),
            r matches Err(e) ==> *final(self) == *old(self) && exists|k: int|
                first_refused(Field::HiCut, sequence@, k) && e == Field::HiCut.rejection(
                    sequence@[k] as u32,
                ),
    {
        self.set_motion(MotionSeq::HiCut, sequence)
    }

    /// The bytes of the part as the sampler expects them.
    pub fn to_bytes(&self) -> (r: Vec<u8>)
        ensures
            r@ == self@.bytes(),
            r@.len() == PART_SIZE,
    {
        proof {
            use_type_invariant(self);
        }
        let mut bytes: Vec<u8> = Vec::new();
        append_le16(&mut bytes, self.sample_num);
        append_le16(&mut bytes, self.step_on);
        append_le16(&mut bytes, self.accent);
        append_le16(&mut bytes, self.reserved);
        bytes.push(self.level);
        append(&mut bytes, self.param.as_slice());
        bytes.push(self.func_memory_part);
        append(&mut bytes, self.padding1.as_slice());
        let ghost head = bytes@;
        let mut m: usize = 0;
        while m < 14
            invariant
                0 <= m <= 14,
                self@.shaped(),
                bytes@ == head + concat(self@.motion.take(m as int)),
            decreases 14 - m,
        {
            proof {
                lemma_concat_step(self@.motion, m as int);
            }
            append(&mut bytes, self.motion[m].as_slice());
            m += 1;
        }
        proof {
            assert(self@.motion.take(14) =~= self@.motion);
            lemma_concat_len(self@.motion, 16);
        }
        bytes
    }

    pub fn build(self) -> (r: Self)
        ensures
            r == self,
    {
        self
    }
}

/// What a pattern holds, field by field in the order of the record.
pub struct PatternView {
    pub header: u32,
    pub dev_code: u16,
    pub reserved: Seq<u8>,
    pub active_step: u16,
    pub padding1: Seq<u8>,
    pub part: Seq<PartView>,
    pub padding2: Seq<u8>,
    pub footer: u32,
}

impl PatternView {
    /// The pattern as it starts out: every step active, and each of the ten
    /// parts as it starts out for sample 0.
    pub open spec fn initial() -> PatternView {
        PatternView {
            header: PATTERN_HEADER,
            dev_code: PATTERN_DEVCODE,
            reserved: zeros(2),
            active_step: 0xffff,
            padding1: zeros(22),
            part: Seq::new(10, |i: int| PartView::initial(0)),
            padding2: zeros(28),
            footer: PATTERN_FOOTER,
        }
    }

    /// What holds of every pattern: the marks at both ends and the device
    /// code are in place, every step is active, reserved bytes are zero, and
    /// there are ten parts, each well formed.
    pub open spec fn wf(self) -> bool {
        &&& self.header == PATTERN_HEADER
        &&& self.dev_code == PATTERN_DEVCODE
        &&& self.reserved == zeros(2)
        &&& self.active_step == 0xffff
        &&& self.padding1 == zeros(22)
        &&& self.part.len() == 10
        &&& forall|i: int| 0 <= i < 10 ==> (#[trigger] self.part[i]).wf()
        &&& self.padding2 == zeros(28)
        &&& self.footer == PATTERN_FOOTER
    }

    /// The pattern with the part at `index` replaced.
    pub open spec fn with_part(self, index: int, part: PartView) -> PatternView {
        PatternView { part: self.part.update(index, part), ..self }
    }

    /// The bytes of each part, in the order of the parts.
    pub open spec fn part_bytes(self) -> Seq<Seq<u8>> {
        Seq::new(self.part.len(), |i: int| self.part[i].bytes())
    }

    /// The bytes of the pattern as the sampler expects them: the fields in
    /// the order of the record, numbers with their low byte first.
    pub open spec fn bytes(self) -> Seq<u8> {
        le32(self.header) + le16(self.dev_code) + self.reserved + le16(self.active_step)
            + self.padding1 + concat(self.part_bytes()) + self.padding2 + le32(self.footer)
    }
}

/// Defines a pattern for the sequencer
#[derive(Debug)]
pub struct Pattern {
    header: u32,
    dev_code: u16,
    reserved: [u8; 2],
    active_step: u16,
    padding1: [u8; 22],
    part: [Part; 10],
    padding2: [u8; 28],
    footer: u32,
}

impl View for Pattern {
    type V = PatternView;

    closed spec fn view(&self) -> PatternView {
        PatternView {
            header: self.header,
            dev_code: self.dev_code,
            reserved: self.reserved@,
            active_step: self.active_step,
            padding1: self.padding1@,
            part: Seq::new(10, |i: int| self.part@[i]@),
            padding2: self.padding2@,
            footer: self.footer,
        }
    }
}

impl Clone for Pattern {
    fn clone(&self) -> (r: Self)
        ensures
            r@ == self@,
    {
        proof {
            use_type_invariant(self);
        }
        Self {
            header: self.header,
            dev_code: self.dev_code,
            reserved: self.reserved,
            active_step: self.active_step,
            padding1: self.padding1,
            part: self.part,
            padding2: self.padding2,
            footer: self.footer,
        }
    }
}

impl Default for Pattern {
    /// The pattern as the sampler has it after its own initialisation.
    fn default() -> (r: Self)
        ensures
            r@ == PatternView::initial(),
            r@.wf(),
    {
        let part = Part::initial(0);
        let reserved: [u8; 2] = [0u8; 2];
        let padding1: [u8; 22] = [0u8; 22];
        let padding2: [u8; 28] = [0u8; 28];
        let parts: [Part; 10] = [part; 10];
        proof {
            assert(reserved@ =~= zeros(2));
            assert(padding1@ =~= zeros(22));
            assert(padding2@ =~= zeros(28));
            assert(Seq::new(10, |i: int| parts@[i]@) =~= Seq::new(10, |i: int| PartView::initial(0)));
        }
        Self {
            header: PATTERN_HEADER,
            dev_code: PATTERN_DEVCODE,
            reserved,
            active_step: 0xffff,
            padding1,
            part: parts,
            padding2,
            footer: PATTERN_FOOTER,
        }
    }
}

impl Pattern {
    #[verifier::type_invariant]
    closed spec fn inv(self) -> bool {
        self@.wf()
    }

    /// Puts `part` at `part_index`, in place of the part that was there.
    /// An index above 9 is refused and leaves the pattern as it was.
    pub fn with_part(&mut self, part_index: u8, part: Part) -> (r: Result<&Self, SyroError>)
        ensures
            r is Ok <==> part_index <= 9,
            r matches Ok(pattern) ==> pattern@ == old(self)@.with_part(part_index as int, part@)
                && pattern@.wf() && *pattern == *final(self),
            r matches Err(e) ==> e == Field::PartIndex.rejection(part_index as u32) && *final(self)
                == *old(self),
    {
        proof {
            use_type_invariant(&*self);
            use_type_invariant(&part);
        }
        match Field::PartIndex.check(part_index as u32) {
            Ok(()) => {},
            Err(e) => {
                return Err(e);
            },
        }
        let mut parts = self.part;
        parts[part_index as usize] = part;
        proof {
            let after = self@.with_part(part_index as int, part@);
            assert(Seq::new(10, |i: int| parts@[i]@) =~= after.part);
        }
        self.part = parts;
        Ok(self)
    }

    /// The bytes of the pattern as the sampler expects them.
    pub fn to_bytes(self) -> (r: Vec<u8>)
        ensures
            r@ == self@.bytes(),
            r@.len() == PATTERN_SIZE,
    {
        proof {
            use_type_invariant(&self);
        }
        let mut bytes: Vec<u8> = Vec::new();
        append_le32(&mut bytes, self.header);
        append_le16(&mut bytes, self.dev_code);
        append(&mut bytes, self.reserved.as_slice());
        append_le16(&mut bytes, self.active_step);
        append(&mut bytes, self.padding1.as_slice());
        let ghost head = bytes@;
        let ghost rows = self@.part_bytes();
        assert forall|j: int| 0 <= j < 10 implies (#[trigger] rows[j]).len() == 256 by {
            lemma_part_len(self@.part[j]);
        }
        let mut i: usize = 0;
        while i < 10
            invariant
                0 <= i <= 10,
                rows == self@.part_bytes(),
                rows.len() == 10,
                forall|j: int| 0 <= j < 10 ==> (#[trigger] rows[j]).len() == 256,
                bytes@ == head + concat(rows.take(i as int)),
            decreases 10 - i,
        {
            proof {
                lemma_concat_step(rows, i as int);
            }
            let part_bytes = self.part[i].to_bytes();
            append(&mut bytes, part_bytes.as_slice());
            i += 1;
        }
        proof {
            assert(rows.take(10) =~= rows);
            lemma_concat_len(rows, 256);
        }
        append(&mut bytes, self.padding2.as_slice());
        append_le32(&mut bytes, self.footer);
        bytes
    }
}

/// Checks a speed: as semitones it runs from 40 to 88, as a continuous
/// rate from 129 to 255, and nothing between or beyond is valid.
pub fn check_speed(speed: u8) -> (r: Result<(), SyroError>)
    ensures
        r is Ok <==> 40 <= speed <= 88 || 129 <= speed,
        r matches Err(e) ==> e == Field::Speed.rejection(speed as u32),
{
    Field::Speed.check(speed as u32)
}

/// The bytes of a part as it starts out for sample 0.
pub open spec fn initial_part_image() -> Seq<u8> {
    zeros(8) + seq![127u8] + initial_params() + seq![0x10u8] + zeros(11) + zeros(224)
}

/// The bytes of a pattern right after the sampler has initialised it.
pub open spec fn initial_image() -> Seq<u8> {
    seq![0x50u8, 0x54u8, 0x53u8, 0x54u8, 0xb8u8, 0x33u8, 0u8, 0u8, 0xffu8, 0xffu8] + zeros(22)
        + concat(Seq::new(10, |i: int| initial_part_image())) + zeros(28) + seq![
        0x50u8,
        0x54u8,
        0x45u8,
        0x44u8,
    ]
}

/// A pattern always takes the same number of bytes, whatever it holds.
pub proof fn lemma_pattern_len(pattern: PatternView)
    requires
        pattern.wf(),
    ensures
        pattern.bytes().len() == PATTERN_SIZE,
{
    let rows = pattern.part_bytes();
    assert forall|j: int| 0 <= j < rows.len() implies (#[trigger] rows[j]).len() == 256 by {
        lemma_part_len(pattern.part[j]);
    }
    lemma_concat_len(rows, 256);
}

/// The pattern as it starts out is well formed, and its bytes are the image
/// that the sampler's own initialisation leaves.
pub proof fn lemma_initial_image()
    ensures
        PatternView::initial().wf(),
        PatternView::initial().bytes() == initial_image(),
        initial_image().len() == PATTERN_SIZE,
{
    let pattern = PatternView::initial();
    let part = PartView::initial(0);
    lemma_initial_wf(0);
    lemma_pattern_len(pattern);
    assert(le16(0) =~= zeros(2)) by {
        assert(0u16 & 0xff == 0 && 0u16 >> 8 == 0) by (bit_vector);
    }
    assert(le16(0xffff) =~= seq![0xffu8, 0xffu8]) by {
        assert(0xffffu16 & 0xff == 0xff && 0xffffu16 >> 8 == 0xff) by (bit_vector);
    }
    assert(le16(PATTERN_DEVCODE) =~= seq![0xb8u8, 0x33u8]) by {
        assert(0x33b8u16 & 0xff == 0xb8 && 0x33b8u16 >> 8 == 0x33) by (bit_vector);
    }
    assert(le32(PATTERN_HEADER) =~= seq![0x50u8, 0x54u8, 0x53u8, 0x54u8]) by {
        assert(0x54535450u32 & 0xff == 0x50 && (0x54535450u32 >> 8) & 0xff == 0x54 && (0x54535450u32
            >> 16) & 0xff == 0x53 && 0x54535450u32 >> 24 == 0x54) by (bit_vector);
    }
    assert(le32(PATTERN_FOOTER) =~= seq![0x50u8, 0x54u8, 0x45u8, 0x44u8]) by {
        assert(0x44455450u32 & 0xff == 0x50 && (0x44455450u32 >> 8) & 0xff == 0x54 && (0x44455450u32
            >> 16) & 0xff == 0x45 && 0x44455450u32 >> 24 == 0x44) by (bit_vector);
    }
    assert(part.bytes() =~= initial_part_image()) by {
        lemma_concat_zeros(14, 16);
    }
    assert(pattern.part_bytes() =~= Seq::new(10, |i: int| initial_part_image()));
}

/// In the bytes of a pattern, part `index` takes the 256 bytes that start
/// at `32 + 256 * index`; the 32 bytes before the first part and the 32
/// bytes after the last are the pattern's own.
pub proof fn lemma_part_block(pattern: PatternView, index: int)
    requires
        pattern.wf(),
        0 <= index < 10,
    ensures
        pattern.bytes().len() == PATTERN_SIZE,
        pattern.bytes().subrange(32 + 256 * index, 32 + 256 * (index + 1))
            == pattern.part[index].bytes(),
        pattern.bytes().take(32) == le32(pattern.header) + le16(pattern.dev_code)
            + pattern.reserved + le16(pattern.active_step) + pattern.padding1,
        pattern.bytes().skip(2592) == pattern.padding2 + le32(pattern.footer),
{
    let rows = pattern.part_bytes();
    assert forall|j: int| 0 <= j < rows.len() implies (#[trigger] rows[j]).len() == 256 by {
        lemma_part_len(pattern.part[j]);
    }
    lemma_concat_len(rows, 256);
    lemma_concat_row(rows, 256, index);
}

/// Putting a part where another was put before leaves nothing of the
/// earlier one: the pattern is the one that only ever got the later part,
/// the later part's bytes fill the whole block of that index, and every
/// byte outside that block is as it was before either part was put.
pub proof fn lemma_replace_part(pattern: PatternView, index: int, earlier: PartView, later: PartView)
    requires
        pattern.wf(),
        earlier.wf(),
        later.wf(),
        0 <= index < 10,
    ensures
        pattern.with_part(index, earlier).with_part(index, later) == pattern.with_part(
            index,
            later,
        ),
        pattern.with_part(index, later).wf(),
        pattern.with_part(index, later).bytes().subrange(32 + 256 * index, 32 + 256 * (index + 1))
            == later.bytes(),
        forall|j: int|
            0 <= j < 10 && j != index ==> #[trigger] pattern.with_part(index, later).bytes().subrange(
                32 + 256 * j,
                32 + 256 * (j + 1),
            ) == pattern.bytes().subrange(32 + 256 * j, 32 + 256 * (j + 1)),
        pattern.with_part(index, later).bytes().take(32) == pattern.bytes().take(32),
        pattern.with_part(index, later).bytes().skip(2592) == pattern.bytes().skip(2592),
{
    let once = pattern.with_part(index, later);
    let twice = pattern.with_part(index, earlier).with_part(index, later);
    assert(twice.part =~= once.part);
    lemma_part_block(once, index);
    lemma_part_block(pattern, index);
    assert forall|j: int| 0 <= j < 10 && j != index implies #[trigger] once.bytes().subrange(
        32 + 256 * j,
        32 + 256 * (j + 1),
    ) == pattern.bytes().subrange(32 + 256 * j, 32 + 256 * (j + 1)) by {
        lemma_part_block(once, j);
        lemma_part_block(pattern, j);
    }
}

} // verus!
