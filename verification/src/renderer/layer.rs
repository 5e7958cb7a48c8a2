//! The state of the renderer that draws on layers of the system.
use crate::danmaku::plan::DanmakuRenderPlan;
use crate::ffmpeg::codes::{hdr_of, matrix_of, primaries_of, range_of, transfer_of};
use crate::ffmpeg::frame::Frame;
use crate::renderer::color::{told_peak, ColorRange, SourceColorState};
use crate::renderer::error::{RendererError, Result};
use crate::renderer::metal::{
    can_add_up, first_bad_mask, first_bad_plane, inspect_overlay_frame, masks_bytes, masks_pixels,
    planes_pixels, used_range, ImportedVideoFrame, MetalOutputMode, MetalRendererConfig,
    OverlayRenderFrame, PreparedOverlayFrameInfo,
};
use crate::renderer::wgpu::{is_for, plan_matches};
use crate::time::Duration;
use vstd::prelude::*;

verus! {

/// A renderer of layers.
#[derive(Debug)]
pub struct MetalRenderer {
    pub config: MetalRendererConfig,
    pub current_frame: Option<ImportedVideoFrame>,
    pub current_media_time: Duration,
    pub current_generation: u64,
}

/// An imported frame that is read with the colours of the decoded one.
pub open spec fn with_colors(textures: ImportedVideoFrame, frame: Frame) -> ImportedVideoFrame {
    let hdr_metadata = hdr_of(frame.mastering, frame.light);
    ImportedVideoFrame {
        source_color: SourceColorState {
            primaries: primaries_of(frame.primaries),
            transfer: transfer_of(frame.transfer),
            range: used_range(textures.info.color_range, range_of(frame.range)),
            matrix: matrix_of(frame.matrix),
            hdr_metadata,
            nominal_peak_nits: told_peak(hdr_metadata, None),
        },
        ..textures
    }
}

/// Reads an imported frame with the colours of the decoded one. A frame that is
/// not with the system's decoder cannot be imported.
pub fn import_player_frame(frame: &Frame, textures: Option<ImportedVideoFrame>) -> (result: Result<
    ImportedVideoFrame,
>)
    ensures
        match textures {
            Some(textures) => result matches Ok(imported) && imported == with_colors(
                textures,
                *frame,
            ),
            None => result matches Err(error) && error == RendererError::NotVideoToolbox,
        },
{
    match textures {
        None => Err(RendererError::NotVideoToolbox),
        Some(textures) => {
            let mut imported = textures;
            imported.set_source_color_metadata(
                frame.color_primaries(),
                frame.transfer_function(),
                frame.color_range(),
                frame.matrix_coefficients(),
                frame.hdr_metadata(),
            );
            Ok(imported)
        },
    }
}

impl MetalRenderer {
    /// A renderer with plain settings, where there are layers.
    pub fn new(has_layers: bool) -> (result: Result<Self>)
        ensures
            result is Ok <==> has_layers,
            result matches Err(error) ==> error == RendererError::NotApple,
            result matches Ok(renderer) ==> renderer.config.output_mode == MetalOutputMode::Sdr
                && renderer.current_frame is None && renderer.current_media_time@ == 0
                && renderer.current_generation == 1,
    {
        Self::with_config(MetalRendererConfig::default(), has_layers)
    }

    /// A renderer without a frame, where there are layers.
    pub fn with_config(config: MetalRendererConfig, has_layers: bool) -> (result: Result<Self>)
        ensures
            result is Ok <==> has_layers,
            result matches Err(error) ==> error == RendererError::NotApple,
            result matches Ok(renderer) ==> renderer.config == config && renderer.current_frame
                is None && renderer.current_media_time@ == 0 && renderer.current_generation == 1,
    {
        if !has_layers {
            return Err(RendererError::NotApple);
        }
        Ok(
            Self {
                config,
                current_frame: None,
                current_media_time: Duration::zero(),
                current_generation: 1,
            },
        )
    }

    /// What an overlay takes, or why it cannot be drawn.
    pub fn prepare_overlay_frame(&self, overlay: OverlayRenderFrame<'_>) -> (result: Result<
        PreparedOverlayFrameInfo,
    >)
        requires
            can_add_up(*overlay.frame),
        ensures
            match first_bad_plane(overlay.frame.subtitle_planes@) {
                Some(error) => result == Err::<PreparedOverlayFrameInfo, RendererError>(error),
                None => match first_bad_mask(overlay.frame.subtitle_alpha_planes@) {
                    Some(error) => result == Err::<PreparedOverlayFrameInfo, RendererError>(error),
                    None => result == Ok::<PreparedOverlayFrameInfo, RendererError>(
                        PreparedOverlayFrameInfo {
                            viewport_width: overlay.frame.viewport.width,
                            viewport_height: overlay.frame.viewport.height,
                            subtitle_planes: (overlay.frame.subtitle_planes@.len()
                                + overlay.frame.subtitle_alpha_planes@.len()) as usize,
                            subtitle_pixels: (planes_pixels(overlay.frame.subtitle_planes@)
                                + masks_pixels(overlay.frame.subtitle_alpha_planes@)) as usize,
                            subtitle_bytes: (planes_pixels(overlay.frame.subtitle_planes@) * 4
                                + masks_bytes(overlay.frame.subtitle_alpha_planes@)) as usize,
                        },
                    ),
                },
            },
    {
        inspect_overlay_frame(overlay.frame)
    }

    /// Takes a frame to show from now on. It is shown at its own time, else at
    /// that of the player, and its generation is never zero. A frame that cannot
    /// be imported leaves the one before.
    pub fn upload_player_frame(
        &mut self,
        frame: &Frame,
        textures: Option<ImportedVideoFrame>,
        pts: Option<Duration>,
        media_time: Duration,
        generation: u64,
    ) -> (result: Result<()>)
        ensures
            match textures {
                None => result == Err::<(), RendererError>(RendererError::NotVideoToolbox)
                    && *final(self) == *old(self),
                Some(textures) => result is Ok && *final(self) == (MetalRenderer {
                    config: old(self).config,
                    current_frame: Some(with_colors(textures, *frame)),
                    current_media_time: match pts {
                        Some(pts) => pts,
                        None => media_time,
                    },
                    current_generation: if generation == 0 {
                        1
                    } else {
                        generation
                    },
                }),
            },
    {
        match import_player_frame(frame, textures) {
            Err(error) => Err(error),
            Ok(imported) => {
                self.current_frame = Some(imported);
                self.current_media_time = match pts {
                    Some(pts) => pts,
                    None => media_time,
                };
                self.current_generation = if generation == 0 {
                    1
                } else {
                    generation
                };
                Ok(())
            },
        }
    }

    /// Whether there is a frame to show and, if so, whether comments are drawn
    /// over it: only those that were planned for what is shown.
    pub fn plan_frame(
        &self,
        danmaku: Option<&DanmakuRenderPlan>,
        generation: u64,
        media_time: Duration,
        output: (u32, u32),
    ) -> (result: Option<bool>)
        ensures
            result == (if self.current_frame is None {
                None
            } else {
                Some(
                    danmaku matches Some(plan) && is_for(*plan, generation, media_time@, output),
                )
            }),
    {
        if self.current_frame.is_none() {
            return None;
        }
        match danmaku {
            Some(plan) => Some(plan_matches(plan, generation, media_time, output)),
            None => Some(false),
        }
    }
}

/// An imported frame is read with the colours that the decoded one tells: each of them by
/// its own code, and the range of the textures before the one that is told.
pub proof fn law_imported_frames_have_the_colours_of_the_decoded_one(
    textures: ImportedVideoFrame,
    frame: Frame,
)
    ensures
        with_colors(textures, frame).info == textures.info,
        with_colors(textures, frame).source_color.primaries == primaries_of(frame.primaries),
        with_colors(textures, frame).source_color.transfer == transfer_of(frame.transfer),
        with_colors(textures, frame).source_color.matrix == matrix_of(frame.matrix),
        textures.info.color_range != ColorRange::Unspecified ==> with_colors(
            textures,
            frame,
        ).source_color.range == textures.info.color_range,
        textures.info.color_range == ColorRange::Unspecified && range_of(frame.range)
            != ColorRange::Unspecified ==> with_colors(textures, frame).source_color.range
            == range_of(frame.range),
        textures.info.color_range == ColorRange::Unspecified && range_of(frame.range)
            == ColorRange::Unspecified ==> with_colors(textures, frame).source_color.range
            == ColorRange::Limited,
        with_colors(textures, frame).source_color.hdr_metadata == hdr_of(
            frame.mastering,
            frame.light,
        ),
        hdr_of(frame.mastering, frame.light) is None ==> with_colors(
            textures,
            frame,
        ).source_color.nominal_peak_nits is None,
{
}

} // verus!
