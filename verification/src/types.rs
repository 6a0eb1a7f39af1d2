//! Core value types shared by the box codecs, the track writer and the
//! file facade: four-character codes, fixed-point numbers, track and media
//! kinds, codec configuration records, and samples.

use vstd::prelude::*;

use vstd::string::StringSliceAdditionalSpecFns;

use crate::error::Error;

verus! {

// Fixed-point numbers are stored as their raw wire integer; the denominator
// is fixed by the type (0x100 for 8.8, 0x10000 for 16.16).

/// Unsigned 8.8 fixed-point value, held in raw form.
#[derive(Debug, Clone, Copy, PartialEq, Eq, Structural)]
pub struct FixedPointU8 {
    pub raw: u16,
}

impl FixedPointU8 {
    pub fn new(val: u8) -> (r: Self)
        ensures
            r.raw == (val as u16) * 0x100,
    {
        FixedPointU8 { raw: (val as u16) * 0x100 }
    }

    pub fn new_raw(val: u16) -> (r: Self)
        ensures
            r.raw == val,
    {
        FixedPointU8 { raw: val }
    }

    /// The integer part.
    pub fn value(&self) -> (r: u8)
        ensures
            r == self.raw / 0x100,
    {
        (self.raw / 0x100) as u8
    }

    pub fn raw_value(&self) -> (r: u16)
        ensures
            r == self.raw,
    {
        self.raw
    }
}

/// Signed 8.8 fixed-point value, held in raw form.
#[derive(Debug, Clone, Copy, PartialEq, Eq, Structural)]
pub struct FixedPointI8 {
    pub raw: i16,
}

impl FixedPointI8 {
    pub fn new(val: i8) -> (r: Self)
        ensures
            r.raw == (val as int) * 0x100,
    {
        FixedPointI8 { raw: (val as i16) * 0x100 }
    }

    pub fn new_raw(val: i16) -> (r: Self)
        ensures
            r.raw == val,
    {
        FixedPointI8 { raw: val }
    }

    /// The integer part, truncated toward zero.
    pub fn value(&self) -> (r: i8)
        ensures
            self.raw >= 0 ==> r == (self.raw as int) / 0x100,
            self.raw < 0 ==> r == -((-(self.raw as int)) / 0x100),
    {
        if self.raw >= 0 {
            ((self.raw as u16) / 0x100) as i8
        } else {
            let mag: u32 = (-(self.raw as i32)) as u32;
            let q: u32 = mag / 0x100;
            assert(q <= 0x80);
            (-(q as i32)) as i8
        }
    }

    pub fn raw_value(&self) -> (r: i16)
        ensures
            r == self.raw,
    {
        self.raw
    }
}

/// Unsigned 16.16 fixed-point value, held in raw form.
#[derive(Debug, Clone, Copy, PartialEq, Eq, Structural)]
pub struct FixedPointU16 {
    pub raw: u32,
}

impl FixedPointU16 {
    pub fn new(val: u16) -> (r: Self)
        ensures
            r.raw == (val as u32) * 0x10000,
    {
        FixedPointU16 { raw: (val as u32) * 0x10000 }
    }

    pub fn new_raw(val: u32) -> (r: Self)
        ensures
            r.raw == val,
    {
        FixedPointU16 { raw: val }
    }

    /// The integer part.
    pub fn value(&self) -> (r: u16)
        ensures
            r == self.raw / 0x10000,
    {
        (self.raw / 0x10000) as u16
    }

    pub fn raw_value(&self) -> (r: u32)
        ensures
            r == self.raw,
    {
        self.raw
    }
}

/// A four-byte identifier: box type, brand, or handler code.
#[derive(Debug, Clone, Copy, PartialEq, Eq, Default)]
pub struct FourCC {
    pub value: [u8; 4],
}

impl FourCC {
    /// Reads the code from a four-character string; any other length is
    /// rejected.
    pub fn from_str(s: &str) -> (r: Result<FourCC, Error>)
        ensures
            s.spec_bytes().len() == 4 ==> (r matches Ok(f) && f.value@ == s.spec_bytes()),
            s.spec_bytes().len() != 4 ==> (r matches Err(Error::InvalidData(_))),
    {
        let b = s.as_bytes();
        if b.len() == 4 {
            let f = FourCC { value: [b[0], b[1], b[2], b[3]] };
            assert(f.value@ =~= s.spec_bytes());
            Ok(f)
        } else {
            Err(Error::InvalidData("expected exactly four bytes in string"))
        }
    }

    pub fn from_u32(number: u32) -> (r: FourCC)
        ensures
            r.value@ == crate::bigend::u32_be(number),
    {
        let f = FourCC {
            value: [
                ((number >> 24) & 0xFF) as u8,
                ((number >> 16) & 0xFF) as u8,
                ((number >> 8) & 0xFF) as u8,
                (number & 0xFF) as u8,
            ],
        };
        assert(f.value@ =~= crate::bigend::u32_be(number));
        f
    }

    pub fn to_u32(&self) -> (r: u32)
        ensures
            r == crate::bigend::be32(self.value@[0], self.value@[1], self.value@[2], self.value@[3]),
    {
        ((self.value[0] as u32) << 24) | ((self.value[1] as u32) << 16) | ((self.value[2] as u32)
            << 8) | (self.value[3] as u32)
    }

    pub fn from_bytes(value: [u8; 4]) -> (r: FourCC)
        ensures
            r.value == value,
    {
        FourCC { value }
    }

    /// Appends the four raw bytes of the code.
    pub fn put(&self, out: &mut Vec<u8>)
        ensures
            final(out)@ == old(out)@ + self.value@,
    {
        out.push(self.value[0]);
        out.push(self.value[1]);
        out.push(self.value[2]);
        out.push(self.value[3]);
        assert(out@ =~= old(out)@ + self.value@);
    }

    /// Reads a code from four raw bytes of the buffer.
    pub fn read_at(buf: &Vec<u8>, pos: usize) -> (r: Result<(FourCC, usize), Error>)
        ensures
            pos + 4 <= buf@.len() ==> (r matches Ok(v) && v.0.value@ == buf@.subrange(
                pos as int,
                pos as int + 4,
            ) && v.1 == pos + 4),
            pos + 4 > buf@.len() ==> (r matches Err(e) && e == Error::IoError),
    {
        if pos <= buf.len() && buf.len() - pos >= 4 {
            let f = FourCC { value: [buf[pos], buf[pos + 1], buf[pos + 2], buf[pos + 3]] };
            assert(f.value@ =~= buf@.subrange(pos as int, pos as int + 4));
            Ok((f, pos + 4))
        } else {
            Err(Error::IoError)
        }
    }
}

/// The three media kinds a track can carry, derived from its handler.
#[derive(Debug, Clone, Copy, PartialEq, Eq, Structural)]
pub enum TrackType {
    Video,
    Audio,
    Subtitle,
}

impl TrackType {
    /// The handler four-character code of this kind.
    pub open spec fn spec_fourcc(self) -> [u8; 4] {
        match self {
            TrackType::Video => [118u8, 105u8, 100u8, 101u8],
            TrackType::Audio => [115u8, 111u8, 117u8, 110u8],
            TrackType::Subtitle => [115u8, 98u8, 116u8, 108u8],
        }
    }

    pub fn to_fourcc(self) -> (r: FourCC)
        ensures
            r.value == self.spec_fourcc(),
    {
        match self {
            TrackType::Video => FourCC { value: [118u8, 105u8, 100u8, 101u8] },
            TrackType::Audio => FourCC { value: [115u8, 111u8, 117u8, 110u8] },
            TrackType::Subtitle => FourCC { value: [115u8, 98u8, 116u8, 108u8] },
        }
    }

    /// The kind named by a handler four-character code, if any.
    pub open spec fn spec_from_fourcc(f: FourCC) -> Option<TrackType> {
        if f.value == TrackType::Video.spec_fourcc() {
            Some(TrackType::Video)
        } else if f.value == TrackType::Audio.spec_fourcc() {
            Some(TrackType::Audio)
        } else if f.value == TrackType::Subtitle.spec_fourcc() {
            Some(TrackType::Subtitle)
        } else {
            None
        }
    }

    pub fn from_fourcc(fourcc: &FourCC) -> (r: Result<TrackType, Error>)
        ensures
            Self::spec_from_fourcc(*fourcc) matches Some(t) ==> r == Ok::<TrackType, Error>(t),
            Self::spec_from_fourcc(*fourcc) is None ==> (r matches Err(Error::InvalidData(_))),
    {
        let v = fourcc.value;
        if v[0] == 118u8 && v[1] == 105u8 && v[2] == 100u8 && v[3] == 101u8 {
            assert(v =~= TrackType::Video.spec_fourcc());
            Ok(TrackType::Video)
        } else if v[0] == 115u8 && v[1] == 111u8 && v[2] == 117u8 && v[3] == 110u8 {
            assert(v =~= TrackType::Audio.spec_fourcc());
            Ok(TrackType::Audio)
        } else if v[0] == 115u8 && v[1] == 98u8 && v[2] == 116u8 && v[3] == 108u8 {
            assert(v =~= TrackType::Subtitle.spec_fourcc());
            Ok(TrackType::Subtitle)
        } else {
            assert(Self::spec_from_fourcc(*fourcc) is None);
            Err(Error::InvalidData("unsupported handler type"))
        }
    }

    /// The predefined handler name written into `hdlr`.
    pub open spec fn spec_handler_name(self) -> Seq<u8> {
        match self {
            TrackType::Video => seq![
                86u8, 105u8, 100u8, 101u8, 111u8, 72u8, 97u8, 110u8, 100u8, 108u8, 101u8, 114u8,
            ],
            TrackType::Audio => seq![
                83u8, 111u8, 117u8, 110u8, 100u8, 72u8, 97u8, 110u8, 100u8, 108u8, 101u8, 114u8,
            ],
            TrackType::Subtitle => seq![
                67u8, 108u8, 111u8, 115u8, 101u8, 100u8, 67u8, 97u8, 112u8, 116u8, 105u8, 111u8, 110u8, 72u8,
                97u8, 110u8, 100u8, 108u8, 101u8, 114u8,
            ],
        }
    }

    pub fn handler_name(self) -> (r: Vec<u8>)
        ensures
            r@ == self.spec_handler_name(),
    {
        let mut v: Vec<u8> = Vec::new();
        match self {
            TrackType::Video => {
                v.push(86u8);
                v.push(105u8);
                v.push(100u8);
                v.push(101u8);
                v.push(111u8);
            },
            TrackType::Audio => {
                v.push(83u8);
                v.push(111u8);
                v.push(117u8);
                v.push(110u8);
                v.push(100u8);
            },
            TrackType::Subtitle => {
                v.push(67u8);
                v.push(108u8);
                v.push(111u8);
                v.push(115u8);
                v.push(101u8);
                v.push(100u8);
                v.push(67u8);
                v.push(97u8);
                v.push(112u8);
                v.push(116u8);
                v.push(105u8);
                v.push(111u8);
                v.push(110u8);
            },
        }
        v.push(72u8);
        v.push(97u8);
        v.push(110u8);
        v.push(100u8);
        v.push(108u8);
        v.push(101u8);
        v.push(114u8);
        assert(v@ =~= self.spec_handler_name());
        v
    }
}

/// The supported coded media formats.
#[derive(Debug, Clone, Copy, PartialEq, Eq, Structural)]
pub enum MediaType {
    H264,
    H265,
    VP9,
    AAC,
    OPUS,
    TTXT,
}

impl MediaType {
    pub fn as_str(self) -> (r: &'static str)
        ensures
            self is H264 ==> r@ == "h264"@,
            self is H265 ==> r@ == "h265"@,
            self is VP9 ==> r@ == "vp9"@,
            self is AAC ==> r@ == "aac"@,
            self is OPUS ==> r@ == "opus"@,
            self is TTXT ==> r@ == "ttxt"@,
    {
        match self {
            MediaType::H264 => "h264",
            MediaType::H265 => "h265",
            MediaType::VP9 => "vp9",
            MediaType::AAC => "aac",
            MediaType::OPUS => "opus",
            MediaType::TTXT => "ttxt",
        }
    }
}

/// AVC profiles distinguished by `profile_idc` and constraint flags.
#[derive(Debug, Clone, Copy, PartialEq, Eq, Structural)]
pub enum AvcProfile {
    AvcConstrainedBaseline,
    AvcBaseline,
    AvcMain,
    AvcExtended,
    AvcHigh,
}

impl AvcProfile {
    /// The profile selected by `(profile_idc, constraint byte)`.
    pub open spec fn spec_from_raw(profile: u8, constraints: u8) -> Option<AvcProfile> {
        let constraint_set1_flag = (constraints & 0x40) >> 7;
        if profile == 66 && constraint_set1_flag == 1 {
            Some(AvcProfile::AvcConstrainedBaseline)
        } else if profile == 66 {
            Some(AvcProfile::AvcBaseline)
        } else if profile == 77 {
            Some(AvcProfile::AvcMain)
        } else if profile == 88 {
            Some(AvcProfile::AvcExtended)
        } else if profile == 100 {
            Some(AvcProfile::AvcHigh)
        } else {
            None
        }
    }

    pub fn from_raw(value: (u8, u8)) -> (r: Result<AvcProfile, Error>)
        ensures
            Self::spec_from_raw(value.0, value.1) matches Some(p) ==> r == Ok::<
                AvcProfile,
                Error,
            >(p),
            Self::spec_from_raw(value.0, value.1) is None ==> (r matches Err(
                Error::InvalidData(_),
            )),
    {
        let profile = value.0;
        let constraint_set1_flag = (value.1 & 0x40) >> 7;
        proof {
            let c = value.1;
            assert(((c & 0x40) >> 7) == 0) by (bit_vector);
        }
        match (profile, constraint_set1_flag) {
            (66, 1) => Ok(AvcProfile::AvcConstrainedBaseline),
            (66, 0) => Ok(AvcProfile::AvcBaseline),
            (77, _) => Ok(AvcProfile::AvcMain),
            (88, _) => Ok(AvcProfile::AvcExtended),
            (100, _) => Ok(AvcProfile::AvcHigh),
            _ => Err(Error::InvalidData("unsupported avc profile")),
        }
    }

    pub fn as_str(self) -> (r: &'static str)
        ensures
            self is AvcConstrainedBaseline ==> r@ == "Constrained Baseline"@,
            self is AvcBaseline ==> r@ == "Baseline"@,
            self is AvcMain ==> r@ == "Main"@,
            self is AvcExtended ==> r@ == "Extended"@,
            self is AvcHigh ==> r@ == "High"@,
    {
        match self {
            AvcProfile::AvcConstrainedBaseline => "Constrained Baseline",
            AvcProfile::AvcBaseline => "Baseline",
            AvcProfile::AvcMain => "Main",
            AvcProfile::AvcExtended => "Extended",
            AvcProfile::AvcHigh => "High",
        }
    }
}

/// MPEG-4 audio object types carried in `esds`.
#[derive(Debug, Clone, Copy, PartialEq, Eq, Structural)]
pub enum AudioObjectType {
    AacMain,
    AacLowComplexity,
    AacScalableSampleRate,
    AacLongTermPrediction,
    SpectralBandReplication,
    AACScalable,
    TwinVQ,
    CodeExcitedLinearPrediction,
    HarmonicVectorExcitationCoding,
    TextToSpeechtInterface,
    MainSynthetic,
    WavetableSynthesis,
    GeneralMIDI,
    AlgorithmicSynthesis,
    ErrorResilientAacLowComplexity,
    ErrorResilientAacLongTermPrediction,
    ErrorResilientAacScalable,
    ErrorResilientAacTwinVQ,
    ErrorResilientAacBitSlicedArithmeticCoding,
    ErrorResilientAacLowDelay,
    ErrorResilientCodeExcitedLinearPrediction,
    ErrorResilientHarmonicVectorExcitationCoding,
    ErrorResilientHarmonicIndividualLinesNoise,
    ErrorResilientParametric,
    SinuSoidalCoding,
    ParametricStereo,
    MpegSurround,
    MpegLayer1,
    MpegLayer2,
    MpegLayer3,
    DirectStreamTransfer,
    AudioLosslessCoding,
    ScalableLosslessCoding,
    ScalableLosslessCodingNoneCore,
    ErrorResilientAacEnhancedLowDelay,
    SymbolicMusicRepresentationSimple,
    SymbolicMusicRepresentationMain,
    UnifiedSpeechAudioCoding,
    SpatialAudioObjectCoding,
    LowDelayMpegSurround,
    SpatialAudioObjectCodingDialogueEnhancement,
    AudioSync,
}

impl AudioObjectType {
    /// The audio object type coded by `value`, if any.
    pub open spec fn spec_from_u8(value: u8) -> Option<AudioObjectType> {
        if value == 1 {
            Some(AudioObjectType::AacMain)
        } else if value == 2 {
            Some(AudioObjectType::AacLowComplexity)
        } else if value == 3 {
            Some(AudioObjectType::AacScalableSampleRate)
        } else if value == 4 {
            Some(AudioObjectType::AacLongTermPrediction)
        } else if value == 5 {
            Some(AudioObjectType::SpectralBandReplication)
        } else if value == 6 {
            Some(AudioObjectType::AACScalable)
        } else if value == 7 {
            Some(AudioObjectType::TwinVQ)
        } else if value == 8 {
            Some(AudioObjectType::CodeExcitedLinearPrediction)
        } else if value == 9 {
            Some(AudioObjectType::HarmonicVectorExcitationCoding)
        } else if value == 12 {
            Some(AudioObjectType::TextToSpeechtInterface)
        } else if value == 13 {
            Some(AudioObjectType::MainSynthetic)
        } else if value == 14 {
            Some(AudioObjectType::WavetableSynthesis)
        } else if value == 15 {
            Some(AudioObjectType::GeneralMIDI)
        } else if value == 16 {
            Some(AudioObjectType::AlgorithmicSynthesis)
        } else if value == 17 {
            Some(AudioObjectType::ErrorResilientAacLowComplexity)
        } else if value == 19 {
            Some(AudioObjectType::ErrorResilientAacLongTermPrediction)
        } else if value == 20 {
            Some(AudioObjectType::ErrorResilientAacScalable)
        } else if value == 21 {
            Some(AudioObjectType::ErrorResilientAacTwinVQ)
        } else if value == 22 {
            Some(AudioObjectType::ErrorResilientAacBitSlicedArithmeticCoding)
        } else if value == 23 {
            Some(AudioObjectType::ErrorResilientAacLowDelay)
        } else if value == 24 {
            Some(AudioObjectType::ErrorResilientCodeExcitedLinearPrediction)
        } else if value == 25 {
            Some(AudioObjectType::ErrorResilientHarmonicVectorExcitationCoding)
        } else if value == 26 {
            Some(AudioObjectType::ErrorResilientHarmonicIndividualLinesNoise)
        } else if value == 27 {
            Some(AudioObjectType::ErrorResilientParametric)
        } else if value == 28 {
            Some(AudioObjectType::SinuSoidalCoding)
        } else if value == 29 {
            Some(AudioObjectType::ParametricStereo)
        } else if value == 30 {
            Some(AudioObjectType::MpegSurround)
        } else if value == 32 {
            Some(AudioObjectType::MpegLayer1)
        } else if value == 33 {
            Some(AudioObjectType::MpegLayer2)
        } else if value == 34 {
            Some(AudioObjectType::MpegLayer3)
        } else if value == 35 {
            Some(AudioObjectType::DirectStreamTransfer)
        } else if value == 36 {
            Some(AudioObjectType::AudioLosslessCoding)
        } else if value == 37 {
            Some(AudioObjectType::ScalableLosslessCoding)
        } else if value == 38 {
            Some(AudioObjectType::ScalableLosslessCodingNoneCore)
        } else if value == 39 {
            Some(AudioObjectType::ErrorResilientAacEnhancedLowDelay)
        } else if value == 40 {
            Some(AudioObjectType::SymbolicMusicRepresentationSimple)
        } else if value == 41 {
            Some(AudioObjectType::SymbolicMusicRepresentationMain)
        } else if value == 42 {
            Some(AudioObjectType::UnifiedSpeechAudioCoding)
        } else if value == 43 {
            Some(AudioObjectType::SpatialAudioObjectCoding)
        } else if value == 44 {
            Some(AudioObjectType::LowDelayMpegSurround)
        } else if value == 45 {
            Some(AudioObjectType::SpatialAudioObjectCodingDialogueEnhancement)
        } else if value == 46 {
            Some(AudioObjectType::AudioSync)
        } else {
            None
        }
    }

    /// The wire value of this audio object type.
    pub open spec fn spec_value(self) -> u8 {
        match self {
            AudioObjectType::AacMain => 1,
            AudioObjectType::AacLowComplexity => 2,
            AudioObjectType::AacScalableSampleRate => 3,
            AudioObjectType::AacLongTermPrediction => 4,
            AudioObjectType::SpectralBandReplication => 5,
            AudioObjectType::AACScalable => 6,
            AudioObjectType::TwinVQ => 7,
            AudioObjectType::CodeExcitedLinearPrediction => 8,
            AudioObjectType::HarmonicVectorExcitationCoding => 9,
            AudioObjectType::TextToSpeechtInterface => 12,
            AudioObjectType::MainSynthetic => 13,
            AudioObjectType::WavetableSynthesis => 14,
            AudioObjectType::GeneralMIDI => 15,
            AudioObjectType::AlgorithmicSynthesis => 16,
            AudioObjectType::ErrorResilientAacLowComplexity => 17,
            AudioObjectType::ErrorResilientAacLongTermPrediction => 19,
            AudioObjectType::ErrorResilientAacScalable => 20,
            AudioObjectType::ErrorResilientAacTwinVQ => 21,
            AudioObjectType::ErrorResilientAacBitSlicedArithmeticCoding => 22,
            AudioObjectType::ErrorResilientAacLowDelay => 23,
            AudioObjectType::ErrorResilientCodeExcitedLinearPrediction => 24,
            AudioObjectType::ErrorResilientHarmonicVectorExcitationCoding => 25,
            AudioObjectType::ErrorResilientHarmonicIndividualLinesNoise => 26,
            AudioObjectType::ErrorResilientParametric => 27,
            AudioObjectType::SinuSoidalCoding => 28,
            AudioObjectType::ParametricStereo => 29,
            AudioObjectType::MpegSurround => 30,
            AudioObjectType::MpegLayer1 => 32,
            AudioObjectType::MpegLayer2 => 33,
            AudioObjectType::MpegLayer3 => 34,
            AudioObjectType::DirectStreamTransfer => 35,
            AudioObjectType::AudioLosslessCoding => 36,
            AudioObjectType::ScalableLosslessCoding => 37,
            AudioObjectType::ScalableLosslessCodingNoneCore => 38,
            AudioObjectType::ErrorResilientAacEnhancedLowDelay => 39,
            AudioObjectType::SymbolicMusicRepresentationSimple => 40,
            AudioObjectType::SymbolicMusicRepresentationMain => 41,
            AudioObjectType::UnifiedSpeechAudioCoding => 42,
            AudioObjectType::SpatialAudioObjectCoding => 43,
            AudioObjectType::LowDelayMpegSurround => 44,
            AudioObjectType::SpatialAudioObjectCodingDialogueEnhancement => 45,
            AudioObjectType::AudioSync => 46,
        }
    }

    pub fn from_u8(value: u8) -> (r: Result<AudioObjectType, Error>)
        ensures
            Self::spec_from_u8(value) matches Some(t) ==> r == Ok::<AudioObjectType, Error>(t),
            Self::spec_from_u8(value) is None ==> (r matches Err(Error::InvalidData(_))),
    {
        match value {
            1 => Ok(AudioObjectType::AacMain),
            2 => Ok(AudioObjectType::AacLowComplexity),
            3 => Ok(AudioObjectType::AacScalableSampleRate),
            4 => Ok(AudioObjectType::AacLongTermPrediction),
            5 => Ok(AudioObjectType::SpectralBandReplication),
            6 => Ok(AudioObjectType::AACScalable),
            7 => Ok(AudioObjectType::TwinVQ),
            8 => Ok(AudioObjectType::CodeExcitedLinearPrediction),
            9 => Ok(AudioObjectType::HarmonicVectorExcitationCoding),
            12 => Ok(AudioObjectType::TextToSpeechtInterface),
            13 => Ok(AudioObjectType::MainSynthetic),
            14 => Ok(AudioObjectType::WavetableSynthesis),
            15 => Ok(AudioObjectType::GeneralMIDI),
            16 => Ok(AudioObjectType::AlgorithmicSynthesis),
            17 => Ok(AudioObjectType::ErrorResilientAacLowComplexity),
            19 => Ok(AudioObjectType::ErrorResilientAacLongTermPrediction),
            20 => Ok(AudioObjectType::ErrorResilientAacScalable),
            21 => Ok(AudioObjectType::ErrorResilientAacTwinVQ),
            22 => Ok(AudioObjectType::ErrorResilientAacBitSlicedArithmeticCoding),
            23 => Ok(AudioObjectType::ErrorResilientAacLowDelay),
            24 => Ok(AudioObjectType::ErrorResilientCodeExcitedLinearPrediction),
            25 => Ok(AudioObjectType::ErrorResilientHarmonicVectorExcitationCoding),
            26 => Ok(AudioObjectType::ErrorResilientHarmonicIndividualLinesNoise),
            27 => Ok(AudioObjectType::ErrorResilientParametric),
            28 => Ok(AudioObjectType::SinuSoidalCoding),
            29 => Ok(AudioObjectType::ParametricStereo),
            30 => Ok(AudioObjectType::MpegSurround),
            32 => Ok(AudioObjectType::MpegLayer1),
            33 => Ok(AudioObjectType::MpegLayer2),
            34 => Ok(AudioObjectType::MpegLayer3),
            35 => Ok(AudioObjectType::DirectStreamTransfer),
            36 => Ok(AudioObjectType::AudioLosslessCoding),
            37 => Ok(AudioObjectType::ScalableLosslessCoding),
            38 => Ok(AudioObjectType::ScalableLosslessCodingNoneCore),
            39 => Ok(AudioObjectType::ErrorResilientAacEnhancedLowDelay),
            40 => Ok(AudioObjectType::SymbolicMusicRepresentationSimple),
            41 => Ok(AudioObjectType::SymbolicMusicRepresentationMain),
            42 => Ok(AudioObjectType::UnifiedSpeechAudioCoding),
            43 => Ok(AudioObjectType::SpatialAudioObjectCoding),
            44 => Ok(AudioObjectType::LowDelayMpegSurround),
            45 => Ok(AudioObjectType::SpatialAudioObjectCodingDialogueEnhancement),
            46 => Ok(AudioObjectType::AudioSync),
            _ => Err(Error::InvalidData("invalid audio object type")),
        }
    }

    pub fn as_u8(self) -> (r: u8)
        ensures
            r == self.spec_value(),
    {
        match self {
            AudioObjectType::AacMain => 1,
            AudioObjectType::AacLowComplexity => 2,
            AudioObjectType::AacScalableSampleRate => 3,
            AudioObjectType::AacLongTermPrediction => 4,
            AudioObjectType::SpectralBandReplication => 5,
            AudioObjectType::AACScalable => 6,
            AudioObjectType::TwinVQ => 7,
            AudioObjectType::CodeExcitedLinearPrediction => 8,
            AudioObjectType::HarmonicVectorExcitationCoding => 9,
            AudioObjectType::TextToSpeechtInterface => 12,
            AudioObjectType::MainSynthetic => 13,
            AudioObjectType::WavetableSynthesis => 14,
            AudioObjectType::GeneralMIDI => 15,
            AudioObjectType::AlgorithmicSynthesis => 16,
            AudioObjectType::ErrorResilientAacLowComplexity => 17,
            AudioObjectType::ErrorResilientAacLongTermPrediction => 19,
            AudioObjectType::ErrorResilientAacScalable => 20,
            AudioObjectType::ErrorResilientAacTwinVQ => 21,
            AudioObjectType::ErrorResilientAacBitSlicedArithmeticCoding => 22,
            AudioObjectType::ErrorResilientAacLowDelay => 23,
            AudioObjectType::ErrorResilientCodeExcitedLinearPrediction => 24,
            AudioObjectType::ErrorResilientHarmonicVectorExcitationCoding => 25,
            AudioObjectType::ErrorResilientHarmonicIndividualLinesNoise => 26,
            AudioObjectType::ErrorResilientParametric => 27,
            AudioObjectType::SinuSoidalCoding => 28,
            AudioObjectType::ParametricStereo => 29,
            AudioObjectType::MpegSurround => 30,
            AudioObjectType::MpegLayer1 => 32,
            AudioObjectType::MpegLayer2 => 33,
            AudioObjectType::MpegLayer3 => 34,
            AudioObjectType::DirectStreamTransfer => 35,
            AudioObjectType::AudioLosslessCoding => 36,
            AudioObjectType::ScalableLosslessCoding => 37,
            AudioObjectType::ScalableLosslessCodingNoneCore => 38,
            AudioObjectType::ErrorResilientAacEnhancedLowDelay => 39,
            AudioObjectType::SymbolicMusicRepresentationSimple => 40,
            AudioObjectType::SymbolicMusicRepresentationMain => 41,
            AudioObjectType::UnifiedSpeechAudioCoding => 42,
            AudioObjectType::SpatialAudioObjectCoding => 43,
            AudioObjectType::LowDelayMpegSurround => 44,
            AudioObjectType::SpatialAudioObjectCodingDialogueEnhancement => 45,
            AudioObjectType::AudioSync => 46,
        }
    }

    pub fn as_str(self) -> (r: &'static str)
        ensures
            r@ == self.spec_name(),
    {
        match self {
            AudioObjectType::AacMain => "AAC Main",
            AudioObjectType::AacLowComplexity => "LC",
            AudioObjectType::AacScalableSampleRate => "SSR",
            AudioObjectType::AacLongTermPrediction => "LTP",
            AudioObjectType::SpectralBandReplication => "SBR",
            AudioObjectType::AACScalable => "Scalable",
            AudioObjectType::TwinVQ => "TwinVQ",
            AudioObjectType::CodeExcitedLinearPrediction => "CELP",
            AudioObjectType::HarmonicVectorExcitationCoding => "HVXC",
            AudioObjectType::TextToSpeechtInterface => "TTSI",
            AudioObjectType::MainSynthetic => "Main Synthetic",
            AudioObjectType::WavetableSynthesis => "Wavetable Synthesis",
            AudioObjectType::GeneralMIDI => "General MIDI",
            AudioObjectType::AlgorithmicSynthesis => "Algorithmic Synthesis",
            AudioObjectType::ErrorResilientAacLowComplexity => "ER AAC LC",
            AudioObjectType::ErrorResilientAacLongTermPrediction => "ER AAC LTP",
            AudioObjectType::ErrorResilientAacScalable => "ER AAC scalable",
            AudioObjectType::ErrorResilientAacTwinVQ => "ER AAC TwinVQ",
            AudioObjectType::ErrorResilientAacBitSlicedArithmeticCoding => "ER AAC BSAC",
            AudioObjectType::ErrorResilientAacLowDelay => "ER AAC LD",
            AudioObjectType::ErrorResilientCodeExcitedLinearPrediction => "ER CELP",
            AudioObjectType::ErrorResilientHarmonicVectorExcitationCoding => "ER HVXC",
            AudioObjectType::ErrorResilientHarmonicIndividualLinesNoise => "ER HILN",
            AudioObjectType::ErrorResilientParametric => "ER Parametric",
            AudioObjectType::SinuSoidalCoding => "SSC",
            AudioObjectType::ParametricStereo => "Parametric Stereo",
            AudioObjectType::MpegSurround => "MPEG surround",
            AudioObjectType::MpegLayer1 => "MPEG Layer 1",
            AudioObjectType::MpegLayer2 => "MPEG Layer 2",
            AudioObjectType::MpegLayer3 => "MPEG Layer 3",
            AudioObjectType::DirectStreamTransfer => "DST",
            AudioObjectType::AudioLosslessCoding => "ALS",
            AudioObjectType::ScalableLosslessCoding => "SLS",
            AudioObjectType::ScalableLosslessCodingNoneCore => "SLS Non-core",
            AudioObjectType::ErrorResilientAacEnhancedLowDelay => "ER AAC ELD",
            AudioObjectType::SymbolicMusicRepresentationSimple => "SMR Simple",
            AudioObjectType::SymbolicMusicRepresentationMain => "SMR Main",
            AudioObjectType::UnifiedSpeechAudioCoding => "USAC",
            AudioObjectType::SpatialAudioObjectCoding => "SAOC",
            AudioObjectType::LowDelayMpegSurround => "LD MPEG Surround",
            AudioObjectType::SpatialAudioObjectCodingDialogueEnhancement => "SAOC-DE",
            AudioObjectType::AudioSync => "Audio Sync",
        }
    }

    /// The display name of this audio object type.
    pub open spec fn spec_name(self) -> Seq<char> {
        match self {
            AudioObjectType::AacMain => "AAC Main"@,
            AudioObjectType::AacLowComplexity => "LC"@,
            AudioObjectType::AacScalableSampleRate => "SSR"@,
            AudioObjectType::AacLongTermPrediction => "LTP"@,
            AudioObjectType::SpectralBandReplication => "SBR"@,
            AudioObjectType::AACScalable => "Scalable"@,
            AudioObjectType::TwinVQ => "TwinVQ"@,
            AudioObjectType::CodeExcitedLinearPrediction => "CELP"@,
            AudioObjectType::HarmonicVectorExcitationCoding => "HVXC"@,
            AudioObjectType::TextToSpeechtInterface => "TTSI"@,
            AudioObjectType::MainSynthetic => "Main Synthetic"@,
            AudioObjectType::WavetableSynthesis => "Wavetable Synthesis"@,
            AudioObjectType::GeneralMIDI => "General MIDI"@,
            AudioObjectType::AlgorithmicSynthesis => "Algorithmic Synthesis"@,
            AudioObjectType::ErrorResilientAacLowComplexity => "ER AAC LC"@,
            AudioObjectType::ErrorResilientAacLongTermPrediction => "ER AAC LTP"@,
            AudioObjectType::ErrorResilientAacScalable => "ER AAC scalable"@,
            AudioObjectType::ErrorResilientAacTwinVQ => "ER AAC TwinVQ"@,
            AudioObjectType::ErrorResilientAacBitSlicedArithmeticCoding => "ER AAC BSAC"@,
            AudioObjectType::ErrorResilientAacLowDelay => "ER AAC LD"@,
            AudioObjectType::ErrorResilientCodeExcitedLinearPrediction => "ER CELP"@,
            AudioObjectType::ErrorResilientHarmonicVectorExcitationCoding => "ER HVXC"@,
            AudioObjectType::ErrorResilientHarmonicIndividualLinesNoise => "ER HILN"@,
            AudioObjectType::ErrorResilientParametric => "ER Parametric"@,
            AudioObjectType::SinuSoidalCoding => "SSC"@,
            AudioObjectType::ParametricStereo => "Parametric Stereo"@,
            AudioObjectType::MpegSurround => "MPEG surround"@,
            AudioObjectType::MpegLayer1 => "MPEG Layer 1"@,
            AudioObjectType::MpegLayer2 => "MPEG Layer 2"@,
            AudioObjectType::MpegLayer3 => "MPEG Layer 3"@,
            AudioObjectType::DirectStreamTransfer => "DST"@,
            AudioObjectType::AudioLosslessCoding => "ALS"@,
            AudioObjectType::ScalableLosslessCoding => "SLS"@,
            AudioObjectType::ScalableLosslessCodingNoneCore => "SLS Non-core"@,
            AudioObjectType::ErrorResilientAacEnhancedLowDelay => "ER AAC ELD"@,
            AudioObjectType::SymbolicMusicRepresentationSimple => "SMR Simple"@,
            AudioObjectType::SymbolicMusicRepresentationMain => "SMR Main"@,
            AudioObjectType::UnifiedSpeechAudioCoding => "USAC"@,
            AudioObjectType::SpatialAudioObjectCoding => "SAOC"@,
            AudioObjectType::LowDelayMpegSurround => "LD MPEG Surround"@,
            AudioObjectType::SpatialAudioObjectCodingDialogueEnhancement => "SAOC-DE"@,
            AudioObjectType::AudioSync => "Audio Sync"@,
        }
    }
}


/// The thirteen coded sampling-frequency indices.
#[derive(Debug, Clone, Copy, PartialEq, Eq, Structural)]
pub enum SampleFreqIndex {
    Freq96000,
    Freq88200,
    Freq64000,
    Freq48000,
    Freq44100,
    Freq32000,
    Freq24000,
    Freq22050,
    Freq16000,
    Freq12000,
    Freq11025,
    Freq8000,
    Freq7350,
}

impl SampleFreqIndex {
    /// The index coded by `value`, if any.
    pub open spec fn spec_from_u8(value: u8) -> Option<SampleFreqIndex> {
        if value == 0 {
            Some(SampleFreqIndex::Freq96000)
        } else if value == 1 {
            Some(SampleFreqIndex::Freq88200)
        } else if value == 2 {
            Some(SampleFreqIndex::Freq64000)
        } else if value == 3 {
            Some(SampleFreqIndex::Freq48000)
        } else if value == 4 {
            Some(SampleFreqIndex::Freq44100)
        } else if value == 5 {
            Some(SampleFreqIndex::Freq32000)
        } else if value == 6 {
            Some(SampleFreqIndex::Freq24000)
        } else if value == 7 {
            Some(SampleFreqIndex::Freq22050)
        } else if value == 8 {
            Some(SampleFreqIndex::Freq16000)
        } else if value == 9 {
            Some(SampleFreqIndex::Freq12000)
        } else if value == 10 {
            Some(SampleFreqIndex::Freq11025)
        } else if value == 11 {
            Some(SampleFreqIndex::Freq8000)
        } else if value == 12 {
            Some(SampleFreqIndex::Freq7350)
        } else {
            None
        }
    }

    pub fn from_u8(value: u8) -> (r: Result<SampleFreqIndex, Error>)
        ensures
            Self::spec_from_u8(value) matches Some(t) ==> r == Ok::<SampleFreqIndex, Error>(t),
            Self::spec_from_u8(value) is None ==> (r matches Err(Error::InvalidData(_))),
    {
        match value {
            0 => Ok(SampleFreqIndex::Freq96000),
            1 => Ok(SampleFreqIndex::Freq88200),
            2 => Ok(SampleFreqIndex::Freq64000),
            3 => Ok(SampleFreqIndex::Freq48000),
            4 => Ok(SampleFreqIndex::Freq44100),
            5 => Ok(SampleFreqIndex::Freq32000),
            6 => Ok(SampleFreqIndex::Freq24000),
            7 => Ok(SampleFreqIndex::Freq22050),
            8 => Ok(SampleFreqIndex::Freq16000),
            9 => Ok(SampleFreqIndex::Freq12000),
            10 => Ok(SampleFreqIndex::Freq11025),
            11 => Ok(SampleFreqIndex::Freq8000),
            12 => Ok(SampleFreqIndex::Freq7350),
            _ => Err(Error::InvalidData("invalid sampling frequency index")),
        }
    }

    /// The index for a frequency in hertz. The lookup expects `9600`
    /// where `96000` would be meant; the stored quirk is kept, so a true
    /// input of `96000` is rejected.
    pub open spec fn spec_from_freq(value: u32) -> Option<SampleFreqIndex> {
        if value == 9600 {
            Some(SampleFreqIndex::Freq96000)
        } else if value == 88200 {
            Some(SampleFreqIndex::Freq88200)
        } else if value == 64000 {
            Some(SampleFreqIndex::Freq64000)
        } else if value == 48000 {
            Some(SampleFreqIndex::Freq48000)
        } else if value == 44100 {
            Some(SampleFreqIndex::Freq44100)
        } else if value == 32000 {
            Some(SampleFreqIndex::Freq32000)
        } else if value == 24000 {
            Some(SampleFreqIndex::Freq24000)
        } else if value == 22050 {
            Some(SampleFreqIndex::Freq22050)
        } else if value == 16000 {
            Some(SampleFreqIndex::Freq16000)
        } else if value == 12000 {
            Some(SampleFreqIndex::Freq12000)
        } else if value == 11025 {
            Some(SampleFreqIndex::Freq11025)
        } else if value == 8000 {
            Some(SampleFreqIndex::Freq8000)
        } else if value == 7350 {
            Some(SampleFreqIndex::Freq7350)
        } else {
            None
        }
    }

    pub fn from_freq(value: u32) -> (r: Result<SampleFreqIndex, Error>)
        ensures
            Self::spec_from_freq(value) matches Some(t) ==> r == Ok::<SampleFreqIndex, Error>(t),
            Self::spec_from_freq(value) is None ==> (r matches Err(Error::InvalidData(_))),
    {
        match value {
            9600 => Ok(SampleFreqIndex::Freq96000),
            88200 => Ok(SampleFreqIndex::Freq88200),
            64000 => Ok(SampleFreqIndex::Freq64000),
            48000 => Ok(SampleFreqIndex::Freq48000),
            44100 => Ok(SampleFreqIndex::Freq44100),
            32000 => Ok(SampleFreqIndex::Freq32000),
            24000 => Ok(SampleFreqIndex::Freq24000),
            22050 => Ok(SampleFreqIndex::Freq22050),
            16000 => Ok(SampleFreqIndex::Freq16000),
            12000 => Ok(SampleFreqIndex::Freq12000),
            11025 => Ok(SampleFreqIndex::Freq11025),
            8000 => Ok(SampleFreqIndex::Freq8000),
            7350 => Ok(SampleFreqIndex::Freq7350),
            _ => Err(Error::InvalidData("invalid sampling frequency index")),
        }
    }

    /// The frequency in hertz.
    pub open spec fn spec_freq(self) -> u32 {
        match self {
            SampleFreqIndex::Freq96000 => 96000,
            SampleFreqIndex::Freq88200 => 88200,
            SampleFreqIndex::Freq64000 => 64000,
            SampleFreqIndex::Freq48000 => 48000,
            SampleFreqIndex::Freq44100 => 44100,
            SampleFreqIndex::Freq32000 => 32000,
            SampleFreqIndex::Freq24000 => 24000,
            SampleFreqIndex::Freq22050 => 22050,
            SampleFreqIndex::Freq16000 => 16000,
            SampleFreqIndex::Freq12000 => 12000,
            SampleFreqIndex::Freq11025 => 11025,
            SampleFreqIndex::Freq8000 => 8000,
            SampleFreqIndex::Freq7350 => 7350,
        }
    }

    pub fn freq(&self) -> (r: u32)
        ensures
            r == self.spec_freq(),
    {
        match *self {
            SampleFreqIndex::Freq96000 => 96000,
            SampleFreqIndex::Freq88200 => 88200,
            SampleFreqIndex::Freq64000 => 64000,
            SampleFreqIndex::Freq48000 => 48000,
            SampleFreqIndex::Freq44100 => 44100,
            SampleFreqIndex::Freq32000 => 32000,
            SampleFreqIndex::Freq24000 => 24000,
            SampleFreqIndex::Freq22050 => 22050,
            SampleFreqIndex::Freq16000 => 16000,
            SampleFreqIndex::Freq12000 => 12000,
            SampleFreqIndex::Freq11025 => 11025,
            SampleFreqIndex::Freq8000 => 8000,
            SampleFreqIndex::Freq7350 => 7350,
        }
    }

    /// The wire value of this index.
    pub open spec fn spec_value(self) -> u8 {
        match self {
            SampleFreqIndex::Freq96000 => 0,
            SampleFreqIndex::Freq88200 => 1,
            SampleFreqIndex::Freq64000 => 2,
            SampleFreqIndex::Freq48000 => 3,
            SampleFreqIndex::Freq44100 => 4,
            SampleFreqIndex::Freq32000 => 5,
            SampleFreqIndex::Freq24000 => 6,
            SampleFreqIndex::Freq22050 => 7,
            SampleFreqIndex::Freq16000 => 8,
            SampleFreqIndex::Freq12000 => 9,
            SampleFreqIndex::Freq11025 => 10,
            SampleFreqIndex::Freq8000 => 11,
            SampleFreqIndex::Freq7350 => 12,
        }
    }

    pub fn as_u8(self) -> (r: u8)
        ensures
            r == self.spec_value(),
    {
        match self {
            SampleFreqIndex::Freq96000 => 0,
            SampleFreqIndex::Freq88200 => 1,
            SampleFreqIndex::Freq64000 => 2,
            SampleFreqIndex::Freq48000 => 3,
            SampleFreqIndex::Freq44100 => 4,
            SampleFreqIndex::Freq32000 => 5,
            SampleFreqIndex::Freq24000 => 6,
            SampleFreqIndex::Freq22050 => 7,
            SampleFreqIndex::Freq16000 => 8,
            SampleFreqIndex::Freq12000 => 9,
            SampleFreqIndex::Freq11025 => 10,
            SampleFreqIndex::Freq8000 => 11,
            SampleFreqIndex::Freq7350 => 12,
        }
    }
}


/// The coded channel configurations.
#[derive(Debug, Clone, Copy, PartialEq, Eq, Structural)]
pub enum ChannelConfig {
    Mono,
    Stereo,
    Three,
    Four,
    Five,
    FiveOne,
    SevenOne,
}

impl ChannelConfig {
    /// The configuration coded by `value`, if any.
    pub open spec fn spec_from_u8(value: u8) -> Option<ChannelConfig> {
        if value == 1 {
            Some(ChannelConfig::Mono)
        } else if value == 2 {
            Some(ChannelConfig::Stereo)
        } else if value == 3 {
            Some(ChannelConfig::Three)
        } else if value == 4 {
            Some(ChannelConfig::Four)
        } else if value == 5 {
            Some(ChannelConfig::Five)
        } else if value == 6 {
            Some(ChannelConfig::FiveOne)
        } else if value == 7 {
            Some(ChannelConfig::SevenOne)
        } else {
            None
        }
    }

    pub fn from_u8(value: u8) -> (r: Result<ChannelConfig, Error>)
        ensures
            Self::spec_from_u8(value) matches Some(t) ==> r == Ok::<ChannelConfig, Error>(t),
            Self::spec_from_u8(value) is None ==> (r matches Err(Error::InvalidData(_))),
    {
        match value {
            1 => Ok(ChannelConfig::Mono),
            2 => Ok(ChannelConfig::Stereo),
            3 => Ok(ChannelConfig::Three),
            4 => Ok(ChannelConfig::Four),
            5 => Ok(ChannelConfig::Five),
            6 => Ok(ChannelConfig::FiveOne),
            7 => Ok(ChannelConfig::SevenOne),
            _ => Err(Error::InvalidData("invalid channel configuration")),
        }
    }

    /// The channel count coded by this configuration.
    pub open spec fn spec_value(self) -> u8 {
        match self {
            ChannelConfig::Mono => 1,
            ChannelConfig::Stereo => 2,
            ChannelConfig::Three => 3,
            ChannelConfig::Four => 4,
            ChannelConfig::Five => 5,
            ChannelConfig::FiveOne => 6,
            ChannelConfig::SevenOne => 7,
        }
    }

    pub fn as_u8(self) -> (r: u8)
        ensures
            r == self.spec_value(),
    {
        match self {
            ChannelConfig::Mono => 1,
            ChannelConfig::Stereo => 2,
            ChannelConfig::Three => 3,
            ChannelConfig::Four => 4,
            ChannelConfig::Five => 5,
            ChannelConfig::FiveOne => 6,
            ChannelConfig::SevenOne => 7,
        }
    }

    pub fn as_str(self) -> (r: &'static str)
        ensures
            r@ == self.spec_str(),
    {
        match self {
            ChannelConfig::Mono => "mono",
            ChannelConfig::Stereo => "stereo",
            ChannelConfig::Three => "three",
            ChannelConfig::Four => "four",
            ChannelConfig::Five => "five",
            ChannelConfig::FiveOne => "five.one",
            ChannelConfig::SevenOne => "seven.one",
        }
    }

    /// The display name of this configuration.
    pub open spec fn spec_str(self) -> Seq<char> {
        match self {
            ChannelConfig::Mono => "mono"@,
            ChannelConfig::Stereo => "stereo"@,
            ChannelConfig::Three => "three"@,
            ChannelConfig::Four => "four"@,
            ChannelConfig::Five => "five"@,
            ChannelConfig::FiveOne => "five.one"@,
            ChannelConfig::SevenOne => "seven.one"@,
        }
    }
}

/// H.264 track configuration: dimensions plus the raw parameter sets.
#[derive(Debug, Clone, PartialEq, Eq, Default)]
pub struct AvcConfig {
    pub width: u16,
    pub height: u16,
    pub seq_param_set: Vec<u8>,
    pub pic_param_set: Vec<u8>,
}

/// Which sample-entry code an HEVC track uses.
#[derive(Debug, Clone, Copy, PartialEq, Eq, Structural)]
pub enum HevcBoxType {
    Hev1,
    Hvc1,
}

/// HEVC track configuration. Unset fields fall back to the documented
/// defaults when the sample entry is built.
#[derive(Debug, Clone, PartialEq, Eq)]
pub struct HevcConfig {
    pub width: Option<u16>,
    pub height: Option<u16>,
    pub configuration_version: Option<u8>,
    pub general_profile_space: Option<u8>,
    pub general_tier_flag: Option<bool>,
    pub general_profile_idc: Option<u8>,
    pub general_profile_compatibility_flags: Option<u32>,
    pub general_constraint_indicator_flag: Option<u64>,
    pub general_level_idc: Option<u8>,
    pub min_spatial_segmentation_idc: Option<u16>,
    pub parallelism_type: Option<u8>,
    pub chroma_format_idc: Option<u8>,
    pub bit_depth_luma_minus8: Option<u8>,
    pub bit_depth_chroma_minus8: Option<u8>,
    pub avg_frame_rate: Option<u16>,
    pub constant_frame_rate: Option<u8>,
    pub num_temporal_layers: Option<u8>,
    pub temporal_id_nested: Option<bool>,
    pub length_size_minus_one: Option<u8>,
    pub arrays: Option<Vec<crate::hevc::HvcCArray>>,
    pub use_hvc1: bool,
}

impl Default for HevcConfig {
    /// Every optional field unset; `use_hvc1` off.
    fn default() -> (r: Self)
        ensures
            r.width is None,
            r.height is None,
            r.configuration_version is None,
            r.general_profile_space is None,
            r.general_tier_flag is None,
            r.general_profile_idc is None,
            r.general_profile_compatibility_flags is None,
            r.general_constraint_indicator_flag is None,
            r.general_level_idc is None,
            r.min_spatial_segmentation_idc is None,
            r.parallelism_type is None,
            r.chroma_format_idc is None,
            r.bit_depth_luma_minus8 is None,
            r.bit_depth_chroma_minus8 is None,
            r.avg_frame_rate is None,
            r.constant_frame_rate is None,
            r.num_temporal_layers is None,
            r.temporal_id_nested is None,
            r.length_size_minus_one is None,
            r.arrays is None,
            r.use_hvc1 == false,
    {
        Self {
            width: None,
            height: None,
            configuration_version: None,
            general_profile_space: None,
            general_tier_flag: None,
            general_profile_idc: None,
            general_profile_compatibility_flags: None,
            general_constraint_indicator_flag: None,
            general_level_idc: None,
            min_spatial_segmentation_idc: None,
            parallelism_type: None,
            chroma_format_idc: None,
            bit_depth_luma_minus8: None,
            bit_depth_chroma_minus8: None,
            avg_frame_rate: None,
            constant_frame_rate: None,
            num_temporal_layers: None,
            temporal_id_nested: None,
            length_size_minus_one: None,
            arrays: None,
            use_hvc1: false,
        }
    }
}

impl HevcConfig {
    pub fn new() -> (r: Self)
        ensures
            r.width is None,
            r.height is None,
            r.configuration_version is None,
            r.general_profile_space is None,
            r.general_tier_flag is None,
            r.general_profile_idc is None,
            r.general_profile_compatibility_flags is None,
            r.general_constraint_indicator_flag is None,
            r.general_level_idc is None,
            r.min_spatial_segmentation_idc is None,
            r.parallelism_type is None,
            r.chroma_format_idc is None,
            r.bit_depth_luma_minus8 is None,
            r.bit_depth_chroma_minus8 is None,
            r.avg_frame_rate is None,
            r.constant_frame_rate is None,
            r.num_temporal_layers is None,
            r.temporal_id_nested is None,
            r.length_size_minus_one is None,
            r.arrays is None,
            r.use_hvc1 == false,
    {
        Self::default()
    }

    pub fn with_width(self, width: u16) -> (r: Self)
        ensures
            r == (HevcConfig { width: Some(width), ..self }),
    {
        let mut c = self;
        c.width = Some(width);
        c
    }

    pub fn with_height(self, height: u16) -> (r: Self)
        ensures
            r == (HevcConfig { height: Some(height), ..self }),
    {
        let mut c = self;
        c.height = Some(height);
        c
    }

    pub fn with_configuration_version(self, version: u8) -> (r: Self)
        ensures
            r == (HevcConfig { configuration_version: Some(version), ..self }),
    {
        let mut c = self;
        c.configuration_version = Some(version);
        c
    }

    pub fn with_use_hvc1(self, use_hvc1: bool) -> (r: Self)
        ensures
            r == (HevcConfig { use_hvc1: use_hvc1, ..self }),
    {
        let mut c = self;
        c.use_hvc1 = use_hvc1;
        c
    }
}

/// VP9 track configuration.
#[derive(Debug, Clone, PartialEq, Eq, Default)]
pub struct Vp9Config {
    pub width: u16,
    pub height: u16,
    pub profile: u8,
    pub level: u8,
    pub bit_depth: u8,
    pub chroma_subsampling: u8,
    pub video_full_range_flag: bool,
    pub color_primaries: u8,
    pub transfer_characteristics: u8,
    pub matrix_coefficients: u8,
    pub codec_initialization_data_size: u16,
}

/// AAC track configuration, mirroring the fields of `mp4a` and its
/// `esds` descriptor tree.
#[derive(Debug, Clone, PartialEq, Eq)]
pub struct AacConfig {
    pub bitrate: u32,
    pub profile: AudioObjectType,
    pub freq_index: SampleFreqIndex,
    pub chan_conf: ChannelConfig,
    pub data_reference_index: u16,
    pub sound_version: u16,
    pub samplesize: u16,
    pub esds_version: Option<u8>,
    pub esds_flags: Option<u32>,
    pub es_id: Option<u16>,
    pub object_type_indication: Option<u8>,
    pub stream_type: Option<u8>,
    pub up_stream: Option<u8>,
    pub buffer_size_db: Option<u32>,
    pub max_bitrate: Option<u32>,
    pub avg_bitrate: Option<u32>,
    pub qt_bytes: Option<Vec<u8>>,
}


impl AacConfig {
    /// Copies every AAC-related field out of a parsed `mp4a` entry,
    /// falling back to low-complexity stereo at 48 kHz where the `esds`
    /// tree is absent or carries an unknown code.
    pub fn from_mp4a_box(mp4a: &crate::mp4a::Mp4aBox) -> (r: Self)
        ensures
            r.data_reference_index == mp4a.data_reference_index,
            r.sound_version == 0,
            r.samplesize == mp4a.samplesize,
            (match mp4a.qt_bytes {
                Some(q) => r.qt_bytes matches Some(p) && p@ == q@,
                None => r.qt_bytes is None,
            }),
            mp4a.esds matches Some(e) ==> {
                &&& r.bitrate == e.es_desc.dec_config.avg_bitrate
                &&& r.profile == AudioObjectType::spec_from_u8(
                    e.es_desc.dec_config.dec_specific.profile,
                ).unwrap_or(AudioObjectType::AacLowComplexity)
                &&& r.freq_index == SampleFreqIndex::spec_from_u8(
                    e.es_desc.dec_config.dec_specific.freq_index,
                ).unwrap_or(SampleFreqIndex::Freq48000)
                &&& r.chan_conf == ChannelConfig::spec_from_u8(
                    e.es_desc.dec_config.dec_specific.chan_conf,
                ).unwrap_or(ChannelConfig::Stereo)
                &&& r.esds_version == Some(e.version)
                &&& r.esds_flags == Some(e.flags)
                &&& r.es_id == Some(e.es_desc.es_id)
                &&& r.object_type_indication == Some(
                    e.es_desc.dec_config.object_type_indication,
                )
                &&& r.stream_type == Some(e.es_desc.dec_config.stream_type)
                &&& r.up_stream == Some(e.es_desc.dec_config.up_stream)
                &&& r.buffer_size_db == Some(e.es_desc.dec_config.buffer_size_db)
                &&& r.max_bitrate == Some(e.es_desc.dec_config.max_bitrate)
                &&& r.avg_bitrate == Some(e.es_desc.dec_config.avg_bitrate)
            },
            mp4a.esds is None ==> {
                &&& r.bitrate == 0
                &&& r.profile == AudioObjectType::AacLowComplexity
                &&& r.freq_index == SampleFreqIndex::Freq48000
                &&& r.chan_conf == ChannelConfig::Stereo
                &&& r.esds_version is None
                &&& r.esds_flags is None
                &&& r.es_id is None
                &&& r.object_type_indication is None
                &&& r.stream_type is None
                &&& r.up_stream is None
                &&& r.buffer_size_db is None
                &&& r.max_bitrate is None
                &&& r.avg_bitrate is None
            },
    {
        let qt_bytes: Option<Vec<u8>> = match &mp4a.qt_bytes {
            Some(q) => Some(crate::hevc::clone_bytes(q)),
            None => None,
        };
        match &mp4a.esds {
            Some(esds) => {
                let dec_config = &esds.es_desc.dec_config;
                let profile = match AudioObjectType::from_u8(dec_config.dec_specific.profile) {
                    Ok(p) => p,
                    Err(_) => AudioObjectType::AacLowComplexity,
                };
                let freq_index = match SampleFreqIndex::from_u8(dec_config.dec_specific.freq_index) {
                    Ok(f) => f,
                    Err(_) => SampleFreqIndex::Freq48000,
                };
                let chan_conf = match ChannelConfig::from_u8(dec_config.dec_specific.chan_conf) {
                    Ok(c) => c,
                    Err(_) => ChannelConfig::Stereo,
                };
                AacConfig {
                    bitrate: dec_config.avg_bitrate,
                    profile,
                    freq_index,
                    chan_conf,
                    data_reference_index: mp4a.data_reference_index,
                    sound_version: 0,
                    samplesize: mp4a.samplesize,
                    esds_version: Some(esds.version),
                    esds_flags: Some(esds.flags),
                    es_id: Some(esds.es_desc.es_id),
                    object_type_indication: Some(dec_config.object_type_indication),
                    stream_type: Some(dec_config.stream_type),
                    up_stream: Some(dec_config.up_stream),
                    buffer_size_db: Some(dec_config.buffer_size_db),
                    max_bitrate: Some(dec_config.max_bitrate),
                    avg_bitrate: Some(dec_config.avg_bitrate),
                    qt_bytes,
                }
            },
            None => AacConfig {
                bitrate: 0,
                profile: AudioObjectType::AacLowComplexity,
                freq_index: SampleFreqIndex::Freq48000,
                chan_conf: ChannelConfig::Stereo,
                data_reference_index: mp4a.data_reference_index,
                sound_version: 0,
                samplesize: mp4a.samplesize,
                esds_version: None,
                esds_flags: None,
                es_id: None,
                object_type_indication: None,
                stream_type: None,
                up_stream: None,
                buffer_size_db: None,
                max_bitrate: None,
                avg_bitrate: None,
                qt_bytes,
            },
        }
    }
}

impl Default for AacConfig {
    /// Low-complexity stereo at 48 kHz with the default descriptor tree.
    fn default() -> (r: Self)
        ensures
            r.bitrate == 0,
            r.profile == AudioObjectType::AacLowComplexity,
            r.freq_index == SampleFreqIndex::Freq48000,
            r.chan_conf == ChannelConfig::Stereo,
            r.samplesize == 16,
            r.data_reference_index == 1,
            r.sound_version == 0,
            r.qt_bytes is None,
    {
        let esds = crate::mp4a::EsdsBox::default();
        Self {
            bitrate: 0,
            profile: AudioObjectType::AacLowComplexity,
            freq_index: SampleFreqIndex::Freq48000,
            chan_conf: ChannelConfig::Stereo,
            samplesize: 16,
            data_reference_index: 1,
            sound_version: 0,
            esds_version: Some(esds.version),
            esds_flags: Some(esds.flags),
            es_id: Some(esds.es_desc.es_id),
            object_type_indication: Some(esds.es_desc.dec_config.object_type_indication),
            stream_type: Some(esds.es_desc.dec_config.stream_type),
            up_stream: Some(esds.es_desc.dec_config.up_stream),
            buffer_size_db: Some(esds.es_desc.dec_config.buffer_size_db),
            max_bitrate: Some(esds.es_desc.dec_config.max_bitrate),
            avg_bitrate: Some(esds.es_desc.dec_config.avg_bitrate),
            qt_bytes: None,
        }
    }
}

/// Timed-text track configuration.
#[derive(Debug, Clone, PartialEq, Eq, Default)]
pub struct TtxtConfig {}

/// Opus track configuration.
#[derive(Debug, Clone, PartialEq, Eq)]
pub struct OpusConfig {
    pub bitrate: u32,
    pub freq_index: SampleFreqIndex,
    pub chan_conf: ChannelConfig,
    pub pre_skip: u16,
}

impl Default for OpusConfig {
    fn default() -> (r: Self)
        ensures
            r == (OpusConfig {
                bitrate: 0u32,
                freq_index: SampleFreqIndex::Freq48000,
                chan_conf: ChannelConfig::Stereo,
                pre_skip: 0u16,
            }),
    {
        Self {
            bitrate: 0,
            freq_index: SampleFreqIndex::Freq48000,
            chan_conf: ChannelConfig::Stereo,
            pre_skip: 0,
        }
    }
}

/// The per-format configuration a new track is created from.
#[derive(Debug, Clone, PartialEq, Eq)]
pub enum MediaConfig {
    AvcConfig(AvcConfig),
    HevcConfig(HevcConfig),
    Vp9Config(Vp9Config),
    AacConfig(AacConfig),
    TtxtConfig(TtxtConfig),
    OpusConfig(OpusConfig),
}


/// Deep equality of media configurations: same variant, equal scalar
/// fields, and equal contents of the carried byte and array lists.
pub open spec fn spec_media_conf_eq(a: MediaConfig, b: MediaConfig) -> bool {
    match (a, b) {
        (MediaConfig::AvcConfig(x), MediaConfig::AvcConfig(y)) => {
            &&& x.width == y.width
            &&& x.height == y.height
            &&& x.seq_param_set@ == y.seq_param_set@
            &&& x.pic_param_set@ == y.pic_param_set@
        },
        (MediaConfig::HevcConfig(x), MediaConfig::HevcConfig(y)) => {
            &&& x.width == y.width
            &&& x.height == y.height
            &&& x.configuration_version == y.configuration_version
            &&& x.general_profile_space == y.general_profile_space
            &&& x.general_tier_flag == y.general_tier_flag
            &&& x.general_profile_idc == y.general_profile_idc
            &&& x.general_profile_compatibility_flags == y.general_profile_compatibility_flags
            &&& x.general_constraint_indicator_flag == y.general_constraint_indicator_flag
            &&& x.general_level_idc == y.general_level_idc
            &&& x.min_spatial_segmentation_idc == y.min_spatial_segmentation_idc
            &&& x.parallelism_type == y.parallelism_type
            &&& x.chroma_format_idc == y.chroma_format_idc
            &&& x.bit_depth_luma_minus8 == y.bit_depth_luma_minus8
            &&& x.bit_depth_chroma_minus8 == y.bit_depth_chroma_minus8
            &&& x.avg_frame_rate == y.avg_frame_rate
            &&& x.constant_frame_rate == y.constant_frame_rate
            &&& x.num_temporal_layers == y.num_temporal_layers
            &&& x.temporal_id_nested == y.temporal_id_nested
            &&& x.length_size_minus_one == y.length_size_minus_one
            &&& x.use_hvc1 == y.use_hvc1
            &&& (match (x.arrays, y.arrays) {
                (Some(u), Some(v)) => u@.map_values(|e: crate::hevc::HvcCArray| e@)
                    == v@.map_values(|e: crate::hevc::HvcCArray| e@),
                (None, None) => true,
                _ => false,
            })
        },
        (MediaConfig::Vp9Config(x), MediaConfig::Vp9Config(y)) => x == y,
        (MediaConfig::AacConfig(x), MediaConfig::AacConfig(y)) => {
            &&& x.bitrate == y.bitrate
            &&& x.profile == y.profile
            &&& x.freq_index == y.freq_index
            &&& x.chan_conf == y.chan_conf
            &&& x.data_reference_index == y.data_reference_index
            &&& x.sound_version == y.sound_version
            &&& x.samplesize == y.samplesize
            &&& x.esds_version == y.esds_version
            &&& x.esds_flags == y.esds_flags
            &&& x.es_id == y.es_id
            &&& x.object_type_indication == y.object_type_indication
            &&& x.stream_type == y.stream_type
            &&& x.up_stream == y.up_stream
            &&& x.buffer_size_db == y.buffer_size_db
            &&& x.max_bitrate == y.max_bitrate
            &&& x.avg_bitrate == y.avg_bitrate
            &&& (match (x.qt_bytes, y.qt_bytes) {
                (Some(u), Some(v)) => u@ == v@,
                (None, None) => true,
                _ => false,
            })
        },
        (MediaConfig::TtxtConfig(_), MediaConfig::TtxtConfig(_)) => true,
        (MediaConfig::OpusConfig(x), MediaConfig::OpusConfig(y)) => x == y,
        _ => false,
    }
}

/// Copies a media configuration, preserving its contents deeply.
pub fn clone_media_conf(c: &MediaConfig) -> (r: MediaConfig)
    ensures
        spec_media_conf_eq(r, *c),
{
    match c {
        MediaConfig::AvcConfig(x) => MediaConfig::AvcConfig(
            AvcConfig {
                width: x.width,
                height: x.height,
                seq_param_set: crate::hevc::clone_bytes(&x.seq_param_set),
                pic_param_set: crate::hevc::clone_bytes(&x.pic_param_set),
            },
        ),
        MediaConfig::HevcConfig(x) => MediaConfig::HevcConfig(
            HevcConfig {
                width: x.width,
                height: x.height,
                configuration_version: x.configuration_version,
                general_profile_space: x.general_profile_space,
                general_tier_flag: x.general_tier_flag,
                general_profile_idc: x.general_profile_idc,
                general_profile_compatibility_flags: x.general_profile_compatibility_flags,
                general_constraint_indicator_flag: x.general_constraint_indicator_flag,
                general_level_idc: x.general_level_idc,
                min_spatial_segmentation_idc: x.min_spatial_segmentation_idc,
                parallelism_type: x.parallelism_type,
                chroma_format_idc: x.chroma_format_idc,
                bit_depth_luma_minus8: x.bit_depth_luma_minus8,
                bit_depth_chroma_minus8: x.bit_depth_chroma_minus8,
                avg_frame_rate: x.avg_frame_rate,
                constant_frame_rate: x.constant_frame_rate,
                num_temporal_layers: x.num_temporal_layers,
                temporal_id_nested: x.temporal_id_nested,
                length_size_minus_one: x.length_size_minus_one,
                arrays: match &x.arrays {
                    Some(a) => Some(crate::hevc::clone_arrays(a)),
                    None => None,
                },
                use_hvc1: x.use_hvc1,
            },
        ),
        MediaConfig::Vp9Config(x) => MediaConfig::Vp9Config(
            Vp9Config {
                width: x.width,
                height: x.height,
                profile: x.profile,
                level: x.level,
                bit_depth: x.bit_depth,
                chroma_subsampling: x.chroma_subsampling,
                video_full_range_flag: x.video_full_range_flag,
                color_primaries: x.color_primaries,
                transfer_characteristics: x.transfer_characteristics,
                matrix_coefficients: x.matrix_coefficients,
                codec_initialization_data_size: x.codec_initialization_data_size,
            },
        ),
        MediaConfig::AacConfig(x) => MediaConfig::AacConfig(
            AacConfig {
                bitrate: x.bitrate,
                profile: x.profile,
                freq_index: x.freq_index,
                chan_conf: x.chan_conf,
                data_reference_index: x.data_reference_index,
                sound_version: x.sound_version,
                samplesize: x.samplesize,
                esds_version: x.esds_version,
                esds_flags: x.esds_flags,
                es_id: x.es_id,
                object_type_indication: x.object_type_indication,
                stream_type: x.stream_type,
                up_stream: x.up_stream,
                buffer_size_db: x.buffer_size_db,
                max_bitrate: x.max_bitrate,
                avg_bitrate: x.avg_bitrate,
                qt_bytes: match &x.qt_bytes {
                    Some(q) => Some(crate::hevc::clone_bytes(q)),
                    None => None,
                },
            },
        ),
        MediaConfig::TtxtConfig(_) => MediaConfig::TtxtConfig(TtxtConfig {}),
        MediaConfig::OpusConfig(x) => MediaConfig::OpusConfig(
            OpusConfig {
                bitrate: x.bitrate,
                freq_index: x.freq_index,
                chan_conf: x.chan_conf,
                pre_skip: x.pre_skip,
            },
        ),
    }
}

/// One coded sample with its payload.
#[derive(Debug, Clone)]
pub struct Mp4Sample {
    pub start_time: u64,
    pub duration: u32,
    pub rendering_offset: i32,
    pub is_sync: bool,
    pub bytes: Vec<u8>,
}

/// Sample timing and sync metadata without the payload.
#[derive(Debug, Clone, Copy, PartialEq, Eq, Structural)]
pub struct Mp4SampleMetadata {
    pub start_time: u64,
    pub duration: u32,
    pub rendering_offset: i32,
    pub is_sync: bool,
}

impl PartialEq for Mp4Sample {
    /// Samples compare by metadata and payload length only.
    fn eq(&self, other: &Self) -> (r: bool) {
        self.start_time == other.start_time && self.duration == other.duration
            && self.rendering_offset == other.rendering_offset && self.is_sync == other.is_sync
            && self.bytes.len() == other.bytes.len()
    }
}

impl vstd::std_specs::cmp::PartialEqSpecImpl for Mp4Sample {
    open spec fn obeys_eq_spec() -> bool {
        true
    }

    open spec fn eq_spec(&self, other: &Self) -> bool {
        &&& self.start_time == other.start_time
        &&& self.duration == other.duration
        &&& self.rendering_offset == other.rendering_offset
        &&& self.is_sync == other.is_sync
        &&& self.bytes@.len() == other.bytes@.len()
    }
}

/// Maps a timestamp in the MP4 epoch (1904-01-01) to the Unix epoch;
/// values before the Unix epoch are passed through unchanged.
pub fn creation_time(time: u64) -> (r: u64)
    ensures
        time >= 2082844800 ==> r == time - 2082844800,
        time < 2082844800 ==> r == time,
{
    if time >= 2082844800 {
        time - 2082844800
    } else {
        time
    }
}

/// The coded kinds of an `ilst` data atom.
#[derive(Debug, Clone, Copy, PartialEq, Eq, Structural)]
pub enum DataType {
    Binary,
    Text,
    Image,
    TempoCpil,
}

impl Default for DataType {
    fn default() -> (r: Self)
        ensures
            r == DataType::Binary,
    {
        DataType::Binary
    }
}

impl DataType {
    /// The kind coded by `value`, if any.
    pub open spec fn spec_from_u32(value: u32) -> Option<DataType> {
        if value == 0x000000 {
            Some(DataType::Binary)
        } else if value == 0x000001 {
            Some(DataType::Text)
        } else if value == 0x00000D {
            Some(DataType::Image)
        } else if value == 0x000015 {
            Some(DataType::TempoCpil)
        } else {
            None
        }
    }

    pub fn from_u32(value: u32) -> (r: Result<DataType, Error>)
        ensures
            Self::spec_from_u32(value) matches Some(t) ==> r == Ok::<DataType, Error>(t),
            Self::spec_from_u32(value) is None ==> (r matches Err(Error::InvalidData(_))),
    {
        match value {
            0x000000 => Ok(DataType::Binary),
            0x000001 => Ok(DataType::Text),
            0x00000D => Ok(DataType::Image),
            0x000015 => Ok(DataType::TempoCpil),
            _ => Err(Error::InvalidData("invalid data type")),
        }
    }
}

/// The metadata entries a container may carry.
#[derive(Debug, Clone, Copy, PartialEq, Eq, Structural, Hash)]
pub enum MetadataKey {
    Title,
    Year,
    Poster,
    Summary,
}

/// Read access to a container's descriptive metadata, for callers to
/// implement over their own stores.
pub trait Metadata {
    /// The video's title.
    fn title(&self) -> Option<String>;

    /// The video's release year.
    fn year(&self) -> Option<u32>;

    /// The video's poster (cover art).
    fn poster(&self) -> Option<Vec<u8>>;

    /// The video's summary.
    fn summary(&self) -> Option<String>;
}

impl<T: Metadata> Metadata for Option<T> {
    fn title(&self) -> Option<String> {
        match self {
            Some(t) => t.title(),
            None => None,
        }
    }

    fn year(&self) -> Option<u32> {
        match self {
            Some(t) => t.year(),
            None => None,
        }
    }

    fn poster(&self) -> Option<Vec<u8>> {
        match self {
            Some(t) => t.poster(),
            None => None,
        }
    }

    fn summary(&self) -> Option<String> {
        match self {
            Some(t) => t.summary(),
            None => None,
        }
    }
}

} // verus!
