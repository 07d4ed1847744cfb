//! The stream builder: collects data units by slot and submits them.
use vstd::prelude::*;
use crate::bounds::Field;
use crate::error::SyroError;
use crate::pattern::Pattern;
use crate::session::Session;
use crate::session::SessionView;
use crate::unit::compression_ok;
use crate::unit::erase_unit;
use crate::unit::pattern_unit;
use crate::unit::reset_unit;
use crate::unit::sample_unit;
use crate::unit::DataUnit;
use crate::unit::DataUnitView;

verus! {

/// The units in a row of slots, in the order of the slots.
pub open spec fn present(slots: Seq<Option<DataUnitView>>) -> Seq<DataUnitView>
    decreases slots.len(),
{
    if slots.len() == 0 {
        Seq::empty()
    } else {
        match slots.last() {
            Some(unit) => present(slots.drop_last()).push(unit),
            None => present(slots.drop_last()),
        }
    }
}

/// What a stream has collected: for each sample slot and each pattern slot
/// the unit put there last, if any.
pub struct StreamView {
    pub samples: Seq<Option<DataUnitView>>,
    pub patterns: Seq<Option<DataUnitView>>,
}

impl StreamView {
    /// The stream that has collected nothing.
    pub open spec fn empty() -> StreamView {
        StreamView {
            samples: Seq::new(100, |i: int| None::<DataUnitView>),
            patterns: Seq::new(10, |i: int| None::<DataUnitView>),
        }
    }

    /// What holds of every stream: a hundred sample slots and ten pattern
    /// slots, and a unit sits in the slot that it addresses, a pattern among
    /// the patterns and every other kind among the samples.
    pub open spec fn wf(self) -> bool {
        &&& self.samples.len() == 100
        &&& self.patterns.len() == 10
        &&& forall|i: int|
            0 <= i < 100 ==> match #[trigger] self.samples[i] {
                Some(unit) => unit.wf() && unit.for_samples() && unit.slot_index == i,
                None => true,
            }
        &&& forall|i: int|
            0 <= i < 10 ==> match #[trigger] self.patterns[i] {
                Some(unit) => unit.wf() && !unit.for_samples() && unit.slot_index == i,
                None => true,
            }
    }

    /// Whether nothing was collected.
    pub open spec fn is_empty(self) -> bool {
        &&& forall|i: int| 0 <= i < self.samples.len() ==> (#[trigger] self.samples[i]) is None
        &&& forall|i: int| 0 <= i < self.patterns.len() ==> (#[trigger] self.patterns[i]) is None
    }

    /// The stream with `unit` in the sample slot `index`, in place of what
    /// was there.
    pub open spec fn with_sample(self, index: int, unit: DataUnitView) -> StreamView {
        StreamView { samples: self.samples.update(index, Some(unit)), ..self }
    }

    /// The stream with `unit` in the pattern slot `index`, in place of what
    /// was there.
    pub open spec fn with_pattern(self, index: int, unit: DataUnitView) -> StreamView {
        StreamView { patterns: self.patterns.update(index, Some(unit)), ..self }
    }

    /// The collected units in the order in which the engine gets them: the
    /// samples by slot, then the patterns by slot.
    pub open spec fn units(self) -> Seq<DataUnitView> {
        present(self.samples) + present(self.patterns)
    }
}

/// What a slot of a fresh stream holds: nothing.
fn vacant(_slot: usize) -> (r: Option<DataUnit>)
    ensures
        r is None,
{
    None
}

/// `array_init::array_init`: builds an array by calling the initializer once
/// for each index, in order. Here the initializer is [`vacant`], so every
/// element is `None`.
#[verifier::external_body]
fn vacant_slots<const N: usize>() -> (r: [Option<DataUnit>; N])
    ensures
        forall|i: int| 0 <= i < N ==> (#[trigger] r@[i]) is None,
{
    array_init::array_init(vacant)
}

/// Builder struct for syrostream data.
///
/// [`generate`](SyroStream::generate) and [`reset`](SyroStream::reset)
/// submit what was collected: they hand back the session that turns it into
/// uncompressed PCM data once the engine has been driven through it.
#[derive(Debug)]
pub struct SyroStream {
    samples: [Option<DataUnit>; 100],
    patterns: [Option<DataUnit>; 10],
}

/// The slots of a stream as plain values.
pub open spec fn slots_view(slots: Seq<Option<DataUnit>>) -> Seq<Option<DataUnitView>> {
    Seq::new(
        slots.len(),
        |i: int|
            match slots[i] {
                Some(unit) => Some(unit@),
                None => None,
            },
    )
}

/// Whether every unit in a row of slots is well formed and sits in the slot
/// that it addresses, among the samples or among the patterns.
pub open spec fn slots_ok(slots: Seq<Option<DataUnit>>, for_samples: bool) -> bool {
    forall|i: int|
        0 <= i < slots.len() ==> match #[trigger] slots[i] {
            Some(unit) => unit@.wf() && unit@.for_samples() == for_samples && unit@.slot_index
                == i,
            None => true,
        }
}

/// The units of a list as plain values.
pub open spec fn views(units: Seq<DataUnit>) -> Seq<DataUnitView> {
    Seq::new(units.len(), |i: int| units[i]@)
}

/// A slot index as the 32 bit number that a data unit and an error hold:
/// what does not fit is reported as the largest such number.
pub open spec fn saturated(index: usize) -> u32 {
    if index > u32::MAX {
        u32::MAX
    } else {
        index as u32
    }
}

/// A row of slots holds no unit exactly when every slot is vacant.
pub proof fn lemma_present_none(slots: Seq<Option<DataUnitView>>)
    ensures
        present(slots).len() == 0 <==> forall|i: int|
            0 <= i < slots.len() ==> (#[trigger] slots[i]) is None,
    decreases slots.len(),
{
    if slots.len() > 0 {
        let front = slots.drop_last();
        lemma_present_none(front);
        if present(slots).len() == 0 {
            assert forall|i: int| 0 <= i < slots.len() implies (#[trigger] slots[i]) is None by {
                if i < front.len() {
                    assert(front[i] == slots[i]);
                }
            }
        }
        if forall|i: int| 0 <= i < slots.len() ==> (#[trigger] slots[i]) is None {
            assert(forall|i: int| 0 <= i < front.len() ==> (#[trigger] front[i]) is None);
        }
    }
}

/// A row of slots of which one alone is taken holds that slot's unit and no
/// other.
pub proof fn lemma_present_single(slots: Seq<Option<DataUnitView>>, index: int, unit: DataUnitView)
    requires
        0 <= index < slots.len(),
        slots[index] == Some(unit),
        forall|i: int| 0 <= i < slots.len() && i != index ==> (#[trigger] slots[i]) is None,
    ensures
        present(slots) == seq![unit],
    decreases slots.len(),
{
    let front = slots.drop_last();
    if index == slots.len() - 1 {
        lemma_present_none(front);
        assert(forall|i: int| 0 <= i < front.len() ==> (#[trigger] front[i]) is None);
    } else {
        assert(forall|i: int|
            0 <= i < front.len() && i != index ==> (#[trigger] front[i]) is None);
        lemma_present_single(front, index, unit);
    }
}

/// Adding to a slot that is taken replaces what was there: the stream is the
/// one that only ever got the later unit, and it is not empty.
pub proof fn lemma_replace_unit(
    stream: StreamView,
    index: int,
    earlier: DataUnitView,
    later: DataUnitView,
)
    requires
        0 <= index,
    ensures
        index < stream.samples.len() ==> stream.with_sample(index, earlier).with_sample(
            index,
            later,
        ) == stream.with_sample(index, later) && !stream.with_sample(index, later).is_empty(),
        index < stream.patterns.len() ==> stream.with_pattern(index, earlier).with_pattern(
            index,
            later,
        ) == stream.with_pattern(index, later) && !stream.with_pattern(index, later).is_empty(),
{
    if index < stream.samples.len() {
        assert(stream.samples.update(index, Some(earlier)).update(index, Some(later))
            =~= stream.samples.update(index, Some(later)));
        assert(stream.with_sample(index, later).samples[index] is Some);
    }
    if index < stream.patterns.len() {
        assert(stream.patterns.update(index, Some(earlier)).update(index, Some(later))
            =~= stream.patterns.update(index, Some(later)));
        assert(stream.with_pattern(index, later).patterns[index] is Some);
    }
}

/// Moves the units out of a row of slots, in the order of the slots, to the
/// end of `units`.
fn collect<const N: usize>(slots: [Option<DataUnit>; N], units: &mut Vec<DataUnit>)
    ensures
        views(final(units)@) == views(old(units)@) + present(slots_view(slots@)),
{
    let ghost all = slots_view(slots@);
    let mut slots = slots;
    let mut i: usize = 0;
    while i < N
        invariant
            0 <= i <= N,
            all.len() == N,
            forall|j: int| i <= j < N ==> #[trigger] slots_view(slots@)[j] == all[j],
            views(units@) == views(old(units)@) + present(all.take(i as int)),
        decreases N - i,
    {
        let ghost before = slots_view(slots@);
        let ghost sofar = views(units@);
        assert(before[i as int] == all[i as int]);
        let slot = slots[i].take();
        assert forall|j: int| i < j < N implies #[trigger] slots_view(slots@)[j] == all[j] by {
            assert(before[j] == all[j]);
        }
        proof {
            assert(all.take(i + 1).drop_last() =~= all.take(i as int));
        }
        match slot {
            Some(unit) => {
                units.push(unit);
                assert(views(units@) =~= sofar.push(unit@));
            },
            None => {},
        }
        i += 1;
    }
    assert(all.take(N as int) =~= all);
}

impl View for SyroStream {
    type V = StreamView;

    closed spec fn view(&self) -> StreamView {
        StreamView { samples: slots_view(self.samples@), patterns: slots_view(self.patterns@) }
    }
}

impl Default for SyroStream {
    fn default() -> (r: Self)
        ensures
            r@ == StreamView::empty(),
            r@.wf(),
    {
        let samples: [Option<DataUnit>; 100] = vacant_slots();
        let patterns: [Option<DataUnit>; 10] = vacant_slots();
        proof {
            assert(slots_view(samples@) =~= StreamView::empty().samples);
            assert(slots_view(patterns@) =~= StreamView::empty().patterns);
        }
        Self { samples, patterns }
    }
}

impl SyroStream {
    #[verifier::type_invariant]
    closed spec fn inv(self) -> bool {
        slots_ok(self.samples@, true) && slots_ok(self.patterns@, false)
    }

    /// Add a sample at the given index
    ///
    /// The index must be in the range 0-99. If compression is desired it has to
    /// be in the range of 8-16 bits. The index is checked first. A sample
    /// that was at the index before is replaced.
    pub fn add_sample(
        &mut self,
        index: u32,
        data: Vec<i16>,
        sample_rate: u32,
        compression: Option<u32>,
    ) -> (r: Result<&mut Self, SyroError>)
        requires
            2 * data@.len() <= usize::MAX,
        ensures
            r is Ok <==> index <= 99 && compression_ok(compression),
            r matches Ok(stream) ==> stream@ == old(self)@.with_sample(
                index as int,
                sample_unit(index, data@, sample_rate, compression),
            ) && stream@.wf() && *final(stream) == *final(self),
            r matches Err(e) ==> *final(self) == *old(self) && e == if index > 99 {
                Field::SampleIndex.rejection(index)
            } else {
                Field::BitDepth.rejection(compression->0)
            },
    {
        proof {
            use_type_invariant(&*self);
        }
        let unit = match DataUnit::sample(index, data, sample_rate, compression) {
            Ok(unit) => unit,
            Err(e) => {
                return Err(e);
            },
        };
        let ghost expected = old(self)@.with_sample(index as int, unit@);
        self.samples[index as usize] = Some(unit);
        proof {
            assert(self@.samples =~= expected.samples);
            self.lemma_wf();
        }
        Ok(self)
    }

    /// Erase the sample at the given index
    ///
    /// The index must be in the range 0-99
    pub fn erase_sample(&mut self, index: u32) -> (r: Result<&mut Self, SyroError>)
        ensures
            r is Ok <==> index <= 99,
            r matches Ok(stream) ==> stream@ == old(self)@.with_sample(
                index as int,
                erase_unit(index),
            ) && stream@.wf() && *final(stream) == *final(self),
            r matches Err(e) ==> *final(self) == *old(self) && e == Field::SampleIndex.rejection(
                index,
            ),
    {
        proof {
            use_type_invariant(&*self);
        }
        let unit = match DataUnit::erase(index) {
            Ok(unit) => unit,
            Err(e) => {
                return Err(e);
            },
        };
        let ghost expected = old(self)@.with_sample(index as int, unit@);
        self.samples[index as usize] = Some(unit);
        proof {
            assert(self@.samples =~= expected.samples);
            self.lemma_wf();
        }
        Ok(self)
    }

    /// Add a Pattern at the given index
    ///
    /// The index must be in the range 0-9
    pub fn add_pattern(&mut self, index: usize, pattern: Pattern) -> (r: Result<
        &mut Self,
        SyroError,
    >)
        ensures
            r is Ok <==> index <= 9,
            r matches Ok(stream) ==> stream@ == old(self)@.with_pattern(
                index as int,
                pattern_unit(index as u32, pattern@.bytes()),
            ) && stream@.wf() && *final(stream) == *final(self),
            r matches Err(e) ==> *final(self) == *old(self) && e
                == Field::PatternIndex.rejection(saturated(index)),
    {
        proof {
            use_type_invariant(&*self);
        }
        let slot: u32 = if index > 0xffff_ffff {
            0xffff_ffffu32
        } else {
            index as u32
        };
        match Field::PatternIndex.check(slot) {
            Ok(()) => {},
            Err(e) => {
                return Err(e);
            },
        }
        let unit = match DataUnit::pattern(slot, pattern.to_bytes()) {
            Ok(unit) => unit,
            Err(e) => {
                return Err(e);
            },
        };
        let ghost expected = old(self)@.with_pattern(index as int, unit@);
        self.patterns[index] = Some(unit);
        proof {
            assert(self@.patterns =~= expected.patterns);
            self.lemma_wf();
        }
        Ok(self)
    }

    /// Submits what was collected.
    ///
    /// A stream that has collected nothing is refused with
    /// [`SyroError::EmptyStream`], and no session comes to be. Else the
    /// session is handed back that will open the engine over the collected
    /// units, the samples by slot and then the patterns by slot.
    pub fn generate(self) -> (r: Result<Session, SyroError>)
        ensures
            r is Err <==> self@.is_empty(),
            r matches Err(e) ==> e == SyroError::EmptyStream,
            r matches Ok(session) ==> session@ == SessionView::submitted(self@.units())
                && session@.wf(),
    {
        proof {
            use_type_invariant(&self);
            lemma_present_none(self@.samples);
            lemma_present_none(self@.patterns);
        }
        let mut data: Vec<DataUnit> = Vec::with_capacity(110);
        collect(self.samples, &mut data);
        collect(self.patterns, &mut data);
        assert(views(data@) =~= self@.units());
        if data.len() == 0 {
            return Err(SyroError::EmptyStream);
        }
        Ok(Session::new(data))
    }

    /// Generate stream from a .alldata file
    ///
    /// The image is submitted alone, as the unit of sample slot 0. If
    /// compression is desired it has to be in the range of 8-16 bits.
    pub fn reset(data: Vec<u8>, compression: Option<u32>) -> (r: Result<Session, SyroError>)
        ensures
            r is Ok <==> compression_ok(compression),
            r matches Ok(session) ==> session@ == SessionView::submitted(
                seq![reset_unit(data@, compression)],
            ) && session@.wf(),
            r matches Err(e) ==> compression is Some && e == Field::BitDepth.rejection(
                compression->0,
            ),
    {
        let mut syro_stream = Self::default();
        let unit = match DataUnit::reset(data, compression) {
            Ok(unit) => unit,
            Err(e) => {
                return Err(e);
            },
        };
        let ghost image = unit@;
        proof {
            use_type_invariant(&syro_stream);
        }
        syro_stream.samples[0] = Some(unit);
        proof {
            let collected = syro_stream@;
            assert(collected.samples =~= StreamView::empty().samples.update(0, Some(image)));
            lemma_present_single(collected.samples, 0, image);
            lemma_present_none(collected.patterns);
            assert(!collected.is_empty());
        }
        syro_stream.generate()
    }

    /// Every stream is well formed.
    proof fn lemma_wf(&self)
        requires
            self.inv(),
        ensures
            self@.wf(),
    {
    }
}

} // verus!
