//! Data units: each describes one change to the sampler's memory.
use vstd::prelude::*;
use crate::bounds::Field;
use crate::error::SyroError;
use crate::bytes::le16;

verus! {

/// The sample rate of a whole memory image.
pub const RESET_SAMPLE_RATE: u32 = 44100;

/// What a data unit asks the sampler to do.
#[derive(Clone, Copy, Debug, PartialEq, Eq, Structural)]
pub enum DataKind {
    /// Store a sample as plain 16 bit PCM.
    SampleLinear,
    /// Store a sample, with its bit depth reduced to save space.
    SampleCompressed,
    /// Erase a sample.
    SampleErase,
    /// Store a sequencer pattern.
    Pattern,
    /// Replace the whole sample memory by an image.
    ResetRaw,
    /// Replace the whole sample memory by an image, with reduced bit depth.
    ResetCompressed,
}

/// One change to the sampler's memory, with the bytes that it carries.
#[derive(Debug)]
pub struct DataUnit {
    pub kind: DataKind,
    /// The sample (0-99) or pattern (0-9) that the unit addresses.
    pub slot_index: u32,
    pub payload: Vec<u8>,
    pub sample_rate: u32,
    /// The bit depth to reduce to (8-16), or 0 where nothing is reduced.
    pub quality: u32,
}

/// A data unit with its payload as a sequence of bytes.
pub struct DataUnitView {
    pub kind: DataKind,
    pub slot_index: u32,
    pub payload: Seq<u8>,
    pub sample_rate: u32,
    pub quality: u32,
}

impl View for DataUnit {
    type V = DataUnitView;

    open spec fn view(&self) -> DataUnitView {
        DataUnitView {
            kind: self.kind,
            slot_index: self.slot_index,
            payload: self.payload@,
            sample_rate: self.sample_rate,
            quality: self.quality,
        }
    }
}

impl DataUnitView {
    /// Whether the unit addresses a slot among the samples (all kinds but a
    /// pattern do).
    pub open spec fn for_samples(self) -> bool {
        self.kind != DataKind::Pattern
    }

    /// What holds of every unit that this library makes: the slot exists,
    /// an erasure carries no bytes, a memory image goes to slot 0, and a bit
    /// depth is given exactly where one is reduced to.
    pub open spec fn wf(self) -> bool {
        match self.kind {
            DataKind::SampleLinear => self.slot_index <= 99 && self.quality == 0,
            DataKind::SampleCompressed => self.slot_index <= 99 && 8 <= self.quality <= 16,
            DataKind::SampleErase => self.slot_index <= 99 && self.payload.len() == 0
                && self.sample_rate == 0 && self.quality == 0,
            DataKind::Pattern => self.slot_index <= 9 && self.sample_rate == 0 && self.quality
                == 0,
            DataKind::ResetRaw => self.slot_index == 0 && self.sample_rate == RESET_SAMPLE_RATE
                && self.quality == 0,
            DataKind::ResetCompressed => self.slot_index == 0 && self.sample_rate
                == RESET_SAMPLE_RATE && 8 <= self.quality <= 16,
        }
    }
}

/// The bytes of 16 bit PCM audio: two for each sample, low byte first, a
/// negative sample in two's complement.
pub open spec fn pcm_bytes(samples: Seq<i16>) -> Seq<u8> {
    Seq::new(2 * samples.len(), |k: int| le16(samples[k / 2] as u16)[k % 2])
}

/// The unit that stores `pcm` as sample `index`.
pub open spec fn sample_unit(
    index: u32,
    pcm: Seq<i16>,
    sample_rate: u32,
    compression: Option<u32>,
) -> DataUnitView {
    DataUnitView {
        kind: if compression is Some {
            DataKind::SampleCompressed
        } else {
            DataKind::SampleLinear
        },
        slot_index: index,
        payload: pcm_bytes(pcm),
        sample_rate,
        quality: match compression {
            Some(bit_depth) => bit_depth,
            None => 0,
        },
    }
}

/// The unit that erases sample `index`.
pub open spec fn erase_unit(index: u32) -> DataUnitView {
    DataUnitView {
        kind: DataKind::SampleErase,
        slot_index: index,
        payload: Seq::empty(),
        sample_rate: 0,
        quality: 0,
    }
}

/// The unit that stores the bytes of a pattern as pattern `index`.
pub open spec fn pattern_unit(index: u32, bytes: Seq<u8>) -> DataUnitView {
    DataUnitView {
        kind: DataKind::Pattern,
        slot_index: index,
        payload: bytes,
        sample_rate: 0,
        quality: 0,
    }
}

/// The unit that replaces the whole sample memory by `image`.
pub open spec fn reset_unit(image: Seq<u8>, compression: Option<u32>) -> DataUnitView {
    DataUnitView {
        kind: if compression is Some {
            DataKind::ResetCompressed
        } else {
            DataKind::ResetRaw
        },
        slot_index: 0,
        payload: image,
        sample_rate: RESET_SAMPLE_RATE,
        quality: match compression {
            Some(bit_depth) => bit_depth,
            None => 0,
        },
    }
}

/// Whether a requested compression is one that the sampler takes: none at
/// all, or a bit depth from 8 to 16.
pub open spec fn compression_ok(compression: Option<u32>) -> bool {
    match compression {
        Some(bit_depth) => 8 <= bit_depth <= 16,
        None => true,
    }
}

/// `byteorder::LittleEndian::write_i16_into`: fills `dst` with the numbers
/// of `src`, each as two bytes with the low byte first. The outside function
/// panics unless `dst` is exactly twice as long as `src`, so that is asked
/// of the caller.
#[verifier::external_body]
fn write_i16_into(src: &[i16], dst: &mut [u8])
    requires
        old(dst)@.len() == 2 * src@.len(),
    ensures
        final(dst)@ == pcm_bytes(src@),
{
    <byteorder::LittleEndian as byteorder::ByteOrder>::write_i16_into(src, dst)
}

/// Turns 16 bit PCM audio into the bytes that the sampler takes.
pub fn convert_data(data: Vec<i16>) -> (r: Vec<u8>)
    requires
        2 * data@.len() <= usize::MAX,
    ensures
        r@ == pcm_bytes(data@),
{
    let mut new_data: Vec<u8> = vec![0; data.len() * 2];
    write_i16_into(data.as_slice(), new_data.as_mut_slice());
    new_data
}

/// Checks a requested compression, see [`compression_ok`].
pub fn check_compression(compression: Option<u32>) -> (r: Result<(), SyroError>)
    ensures
        r is Ok <==> compression_ok(compression),
        r matches Err(e) ==> compression matches Some(bit_depth) && e
            == Field::BitDepth.rejection(bit_depth),
{
    match compression {
        Some(bit_depth) => Field::BitDepth.check(bit_depth),
        None => Ok(()),
    }
}

impl DataUnit {
    /// The size of the payload as the engine is told it. The engine takes a
    /// 32 bit number; of a longer payload it is told the low 32 bits of the
    /// length.
    pub fn size(&self) -> (r: u32)
        ensures
            r == self@.payload.len() as u32,
    {
        self.payload.len() as u32
    }

    /// A unit that stores `data` as sample `index`, compressed to the given
    /// bit depth if one is given. The index is checked first, then the bit
    /// depth.
    pub fn sample(index: u32, data: Vec<i16>, sample_rate: u32, compression: Option<u32>) -> (r:
        Result<Self, SyroError>)
        requires
            2 * data@.len() <= usize::MAX,
        ensures
            r is Ok <==> index <= 99 && compression_ok(compression),
            r matches Ok(unit) ==> unit@ == sample_unit(index, data@, sample_rate, compression)
                && unit@.wf(),
            r matches Err(e) ==> e == if index > 99 {
                Field::SampleIndex.rejection(index)
            } else {
                Field::BitDepth.rejection(compression->0)
            },
    {
        match Field::SampleIndex.check(index) {
            Ok(()) => {},
            Err(e) => {
                return Err(e);
            },
        }
        let payload = convert_data(data);
        match check_compression(compression) {
            Ok(()) => {},
            Err(e) => {
                return Err(e);
            },
        }
        let unit = match compression {
            Some(bit_depth) => Self {
                kind: DataKind::SampleCompressed,
                slot_index: index,
                payload,
                sample_rate,
                quality: bit_depth,
            },
            None => Self {
                kind: DataKind::SampleLinear,
                slot_index: index,
                payload,
                sample_rate,
                quality: 0,
            },
        };
        Ok(unit)
    }

    /// A unit that erases sample `index`.
    pub fn erase(index: u32) -> (r: Result<Self, SyroError>)
        ensures
            r is Ok <==> index <= 99,
            r matches Ok(unit) ==> unit@ == erase_unit(index) && unit@.wf(),
            r matches Err(e) ==> e == Field::SampleIndex.rejection(index),
    {
        match Field::SampleIndex.check(index) {
            Ok(()) => {},
            Err(e) => {
                return Err(e);
            },
        }
        Ok(
            Self {
                kind: DataKind::SampleErase,
                slot_index: index,
                payload: Vec::new(),
                sample_rate: 0,
                quality: 0,
            },
        )
    }

    /// A unit that stores the bytes of a pattern as pattern `index`.
    pub fn pattern(index: u32, data: Vec<u8>) -> (r: Result<Self, SyroError>)
        ensures
            r is Ok <==> index <= 9,
            r matches Ok(unit) ==> unit@ == pattern_unit(index, data@) && unit@.wf(),
            r matches Err(e) ==> e == Field::PatternIndex.rejection(index),
    {
        match Field::PatternIndex.check(index) {
            Ok(()) => {},
            Err(e) => {
                return Err(e);
            },
        }
        Ok(
            Self {
                kind: DataKind::Pattern,
                slot_index: index,
                payload: data,
                sample_rate: 0,
                quality: 0,
            },
        )
    }

    /// A unit that replaces the whole sample memory by the image `data`,
    /// compressed to the given bit depth if one is given.
    pub fn reset(data: Vec<u8>, compression: Option<u32>) -> (r: Result<Self, SyroError>)
        ensures
            r is Ok <==> compression_ok(compression),
            r matches Ok(unit) ==> unit@ == reset_unit(data@, compression) && unit@.wf(),
            r matches Err(e) ==> compression matches Some(bit_depth) && e
                == Field::BitDepth.rejection(bit_depth),
    {
        match compression {
            Some(bit_depth) => {
                match Field::BitDepth.check(bit_depth) {
                    Ok(()) => {},
                    Err(e) => {
                        return Err(e);
                    },
                }
                Ok(
                    Self {
                        kind: DataKind::ResetCompressed,
                        slot_index: 0,
                        payload: data,
                        sample_rate: RESET_SAMPLE_RATE,
                        quality: bit_depth,
                    },
                )
            },
            None => Ok(
                Self {
                    kind: DataKind::ResetRaw,
                    slot_index: 0,
                    payload: data,
                    sample_rate: RESET_SAMPLE_RATE,
                    quality: 0,
                },
            ),
        }
    }
}

} // verus!
