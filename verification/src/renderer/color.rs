//! The colours of a video and of the display it was made for.
use crate::float_bits::{nearest_single, Single, SINGLE_ONE};
use crate::media::{ColorPrimaries, TransferFunction};
use vstd::prelude::*;

verus! {

/// Which codes stand for black and white.
#[derive(Debug, Clone, Copy, PartialEq, Eq, Structural)]
pub enum ColorRange {
    Unspecified,
    Limited,
    Full,
}

impl ColorRange {
    /// The range, or a fallback where it is not specified.
    pub fn resolve(self, fallback: ColorRange) -> (result: ColorRange)
        ensures
            result == (if self == ColorRange::Unspecified {
                fallback
            } else {
                self
            }),
    {
        match self {
            ColorRange::Unspecified => fallback,
            other => other,
        }
    }
}

/// How luma and chroma are made of the primaries.
#[derive(Debug, Clone, Copy, PartialEq, Eq, Structural)]
pub enum MatrixCoefficients {
    Unspecified,
    Identity,
    Bt709,
    Bt601,
    Bt2020NonConstantLuminance,
}

/// A point of the chromaticity diagram.
#[derive(Debug, Clone, Copy, PartialEq, Eq, Structural)]
pub struct Chromaticity {
    pub x: Single,
    pub y: Single,
}

/// The primaries of a display.
#[derive(Debug, Clone, Copy, PartialEq, Eq, Structural)]
pub struct DisplayPrimaries {
    pub red: Chromaticity,
    pub green: Chromaticity,
    pub blue: Chromaticity,
}

/// The display that a video was made on.
#[derive(Debug, Clone, Copy, PartialEq, Eq, Structural)]
pub struct MasteringDisplayMetadata {
    pub display_primaries: Option<DisplayPrimaries>,
    pub white_point: Option<Chromaticity>,
    pub min_luminance_nits: Option<Single>,
    pub max_luminance_nits: Option<Single>,
}

/// How bright a video gets.
#[derive(Debug, Clone, Copy, PartialEq, Eq, Structural)]
pub struct ContentLightMetadata {
    pub max_content_light_level_nits: u32,
    pub max_frame_average_light_level_nits: u32,
}

/// What is known of the dynamic range of a video.
#[derive(Debug, Clone, Copy, PartialEq, Eq, Structural)]
pub struct HdrMetadata {
    pub mastering_display: Option<MasteringDisplayMetadata>,
    pub content_light: Option<ContentLightMetadata>,
}

impl HdrMetadata {
    /// What is known of the dynamic range.
    pub fn new(
        mastering_display: Option<MasteringDisplayMetadata>,
        content_light: Option<ContentLightMetadata>,
    ) -> (result: Self)
        ensures
            result == (HdrMetadata { mastering_display, content_light }),
    {
        Self { mastering_display, content_light }
    }

    /// The peak of the brightness: that of the content, else that of the display.
    pub open spec fn peak(self) -> Option<Single> {
        match self.content_light {
            Some(light) => if light.max_content_light_level_nits > 0 {
                Some(
                    Single {
                        bits: nearest_single(
                            light.max_content_light_level_nits as nat,
                            0,
                        ) as u32,
                    },
                )
            } else {
                self.display_peak()
            },
            None => self.display_peak(),
        }
    }

    /// The peak of the display that the video was made on.
    pub open spec fn display_peak(self) -> Option<Single> {
        match self.mastering_display {
            Some(display) => display.max_luminance_nits,
            None => None,
        }
    }

    /// The peak of the brightness, if it is known.
    pub fn nominal_peak_nits(&self) -> (result: Option<Single>)
        ensures
            result == self.peak(),
    {
        if let Some(light) = self.content_light {
            if light.max_content_light_level_nits > 0 {
                return Some(Single::from_whole(light.max_content_light_level_nits));
            }
        }
        match self.mastering_display {
            Some(display) => display.max_luminance_nits,
            None => None,
        }
    }
}

/// The colours of a video as a renderer reads them.
#[derive(Debug, Clone, Copy, PartialEq, Eq, Structural)]
pub struct SourceColorState {
    pub primaries: ColorPrimaries,
    pub transfer: TransferFunction,
    pub range: ColorRange,
    pub matrix: MatrixCoefficients,
    pub hdr_metadata: Option<HdrMetadata>,
    /// The peak of the brightness, where it is told.
    pub nominal_peak_nits: Option<Single>,
}

/// The peak that dynamic range metadata tell, else the one told before.
pub open spec fn told_peak(hdr_metadata: Option<HdrMetadata>, before: Option<Single>) -> Option<
    Single,
> {
    match hdr_metadata {
        Some(metadata) => match metadata.peak() {
            Some(peak) => Some(peak),
            None => before,
        },
        None => before,
    }
}

impl SourceColorState {
    /// Colours of which no more is known.
    pub fn new(primaries: ColorPrimaries, transfer: TransferFunction) -> (result: Self)
        ensures
            result == (SourceColorState {
                primaries,
                transfer,
                range: ColorRange::Unspecified,
                matrix: MatrixCoefficients::Unspecified,
                hdr_metadata: None,
                nominal_peak_nits: None,
            }),
    {
        Self {
            primaries,
            transfer,
            range: ColorRange::Unspecified,
            matrix: MatrixCoefficients::Unspecified,
            hdr_metadata: None,
            nominal_peak_nits: None,
        }
    }

    /// The same colours with another range.
    pub fn range(self, range: ColorRange) -> (result: Self)
        ensures
            result == (SourceColorState { range, ..self }),
    {
        Self { range, ..self }
    }

    /// The same colours with another matrix.
    pub fn matrix(self, matrix: MatrixCoefficients) -> (result: Self)
        ensures
            result == (SourceColorState { matrix, ..self }),
    {
        Self { matrix, ..self }
    }

    /// The same colours with another dynamic range, and with its peak if it tells
    /// one.
    pub fn hdr_metadata(self, hdr_metadata: Option<HdrMetadata>) -> (result: Self)
        ensures
            result == (SourceColorState {
                hdr_metadata,
                nominal_peak_nits: told_peak(hdr_metadata, self.nominal_peak_nits),
                ..self
            }),
    {
        let peak = match hdr_metadata {
            Some(metadata) => metadata.nominal_peak_nits(),
            None => None,
        };
        match peak {
            Some(nits) => Self { hdr_metadata, nominal_peak_nits: Some(nits), ..self },
            None => Self { hdr_metadata, ..self },
        }
    }

    /// The same colours with another peak.
    pub fn nominal_peak_nits(self, nits: Single) -> (result: Self)
        ensures
            result == (SourceColorState { nominal_peak_nits: Some(nits), ..self }),
    {
        Self { nominal_peak_nits: Some(nits), ..self }
    }
}

/// The pattern of the single 100.
pub const SINGLE_HUNDRED: u32 = 0x42c8_0000;

/// The pattern of the single 203.
pub const SINGLE_203: u32 = 0x434b_0000;

/// The pattern of the single 10000.
pub const SINGLE_TEN_THOUSAND: u32 = 0x461c_4000;

/// The colours of a display.
#[derive(Debug, Clone, Copy, PartialEq, Eq, Structural)]
pub struct TargetColorState {
    pub primaries: ColorPrimaries,
    pub transfer: TransferFunction,
    pub peak_nits: Single,
    pub reference_white_nits: Single,
    pub edr_headroom: Single,
}

/// A plain display.
pub open spec fn sdr_target(primaries: ColorPrimaries) -> TargetColorState {
    TargetColorState {
        primaries,
        transfer: TransferFunction::Srgb,
        peak_nits: Single { bits: SINGLE_HUNDRED },
        reference_white_nits: Single { bits: SINGLE_HUNDRED },
        edr_headroom: Single { bits: SINGLE_ONE },
    }
}

/// A display with headroom above its white.
pub open spec fn edr_target(primaries: ColorPrimaries, headroom: Single) -> TargetColorState {
    let used = headroom.greater(Single { bits: SINGLE_ONE });
    TargetColorState {
        primaries,
        transfer: TransferFunction::Srgb,
        peak_nits: (Single { bits: SINGLE_203 }).product(used),
        reference_white_nits: Single { bits: SINGLE_203 },
        edr_headroom: used,
    }
}

impl TargetColorState {
    /// A plain display.
    pub fn sdr(primaries: ColorPrimaries) -> (result: Self)
        ensures
            result == sdr_target(primaries),
    {
        Self {
            primaries,
            transfer: TransferFunction::Srgb,
            peak_nits: Single { bits: SINGLE_HUNDRED },
            reference_white_nits: Single { bits: SINGLE_HUNDRED },
            edr_headroom: Single { bits: SINGLE_ONE },
        }
    }

    /// A display with headroom above its white.
    pub fn apple_edr(primaries: ColorPrimaries, headroom: Single) -> (result: Self)
        ensures
            result == edr_target(primaries, headroom),
    {
        let used = headroom.max_of(Single { bits: SINGLE_ONE });
        Self {
            primaries,
            transfer: TransferFunction::Srgb,
            peak_nits: (Single { bits: SINGLE_203 }).times(used),
            reference_white_nits: Single { bits: SINGLE_203 },
            edr_headroom: used,
        }
    }
}

/// The peak of a picture is what its content light says, else what the display that it
/// was mastered on says; a level of zero says nothing. Metadata that say nothing leave
/// the peak as it was.
pub proof fn law_content_light_comes_first(metadata: HdrMetadata, before: Option<Single>)
    ensures
        metadata.content_light matches Some(light) ==> light.max_content_light_level_nits > 0
            ==> metadata.peak() == Some(
            Single { bits: nearest_single(light.max_content_light_level_nits as nat, 0) as u32 },
        ),
        (metadata.content_light matches Some(light) ==> light.max_content_light_level_nits == 0)
            ==> metadata.peak() == (match metadata.mastering_display {
            Some(display) => display.max_luminance_nits,
            None => None,
        }),
        told_peak(None, before) == before,
        metadata.peak() is None ==> told_peak(Some(metadata), before) == before,
        metadata.peak() is Some ==> told_peak(Some(metadata), before) == metadata.peak(),
{
}

/// A display without headroom shows up to 100 nits; one with headroom shows white at
/// 203 and as many times more as it has room for, but never less.
pub proof fn law_targets_have_their_peaks(primaries: ColorPrimaries, headroom: Single)
    ensures
        sdr_target(primaries).peak_nits == sdr_target(primaries).reference_white_nits,
        sdr_target(primaries).edr_headroom.bits == SINGLE_ONE,
        sdr_target(primaries).primaries == primaries,
        edr_target(primaries, headroom).primaries == primaries,
        edr_target(primaries, headroom).edr_headroom.rank() >= SINGLE_ONE,
        !headroom.is_nan() && headroom.rank() >= SINGLE_ONE ==> edr_target(
            primaries,
            headroom,
        ).edr_headroom.rank() == headroom.rank(),
        edr_target(primaries, headroom).peak_nits == edr_target(
            primaries,
            headroom,
        ).reference_white_nits.product(edr_target(primaries, headroom).edr_headroom),
{
}

} // verus!
