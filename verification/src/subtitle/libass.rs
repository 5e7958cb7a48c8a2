//! The renderer that draws scripts through libass: how it is set up, what it is
//! told before it draws, and what becomes of the images that it hands out.
use crate::subtitle::bitmap::{
    import_outcome, BitmapSetModel, LibassImageImporter, RawAssImage, SubtitleBitmapColorSpace,
};
use crate::subtitle::error::{Result, SubtitleError, SubtitleErrorModel};
use crate::subtitle::render::{
    libass_dimension, millis_i64, LibassRenderConfig, LibassRenderOperation, LibassRenderPlan,
    SubtitleRenderBackend, SubtitleRenderOutput, SubtitleRenderRequest, SubtitleRenderViewport,
};
use vstd::prelude::*;

verus! {

/// What is done next to set the renderer up.
#[derive(Debug, Clone, Copy, PartialEq, Eq, Structural)]
pub enum LibassStep {
    /// The library is initialized.
    InitLibrary,
    /// A renderer is initialized; then its fonts and its limits are set.
    InitRenderer,
    /// The script is read.
    ReadScript,
    /// The renderer is ready.
    Ready,
}

/// Why the renderer cannot be set up, and what has to be released.
#[derive(Debug)]
pub struct LibassFailure {
    pub error: SubtitleError,
    pub release_renderer: bool,
    pub release_library: bool,
}

/// The text of what is wrong with a step that failed.
pub open spec fn failure_text(step: LibassStep) -> Seq<char> {
    match step {
        LibassStep::InitLibrary => "failed to initialize libass library"@,
        LibassStep::InitRenderer => "failed to initialize libass renderer"@,
        _ => "failed to parse ASS script with libass"@,
    }
}

/// What comes after a step. Where it failed, what was made before is released.
pub fn next_libass_step(step: LibassStep, succeeded: bool) -> (result: core::result::Result<
    LibassStep,
    LibassFailure,
>)
    ensures
        result is Ok <==> succeeded || step == LibassStep::Ready,
        result matches Ok(next) ==> next == (match step {
            LibassStep::InitLibrary => LibassStep::InitRenderer,
            LibassStep::InitRenderer => LibassStep::ReadScript,
            LibassStep::ReadScript => LibassStep::Ready,
            LibassStep::Ready => LibassStep::Ready,
        }),
        result matches Err(failure) ==> {
            &&& failure.error@ == SubtitleErrorModel::Libass(failure_text(step))
            &&& failure.release_renderer == (step == LibassStep::ReadScript)
            &&& failure.release_library == (step != LibassStep::InitLibrary)
        },
{
    match step {
        LibassStep::InitLibrary => {
            if succeeded {
                Ok(LibassStep::InitRenderer)
            } else {
                Err(
                    LibassFailure {
                        error: SubtitleError::Libass(
                            "failed to initialize libass library".to_owned(),
                        ),
                        release_renderer: false,
                        release_library: false,
                    },
                )
            }
        },
        LibassStep::InitRenderer => {
            if succeeded {
                Ok(LibassStep::ReadScript)
            } else {
                Err(
                    LibassFailure {
                        error: SubtitleError::Libass(
                            "failed to initialize libass renderer".to_owned(),
                        ),
                        release_renderer: false,
                        release_library: true,
                    },
                )
            }
        },
        LibassStep::ReadScript => {
            if succeeded {
                Ok(LibassStep::Ready)
            } else {
                Err(
                    LibassFailure {
                        error: SubtitleError::Libass(
                            "failed to parse ASS script with libass".to_owned(),
                        ),
                        release_renderer: true,
                        release_library: true,
                    },
                )
            }
        },
        LibassStep::Ready => Ok(LibassStep::Ready),
    }
}

/// A renderer of a script.
#[derive(Debug, Clone, Copy, PartialEq, Eq, Structural)]
pub struct LibassSubtitleRenderer {
    pub config: LibassRenderConfig,
}

/// The first size of a viewport that libass cannot take, by its label.
pub open spec fn refused_size(viewport: SubtitleRenderViewport) -> Option<Seq<char>> {
    if viewport.width > i32::MAX {
        Some("frame width"@)
    } else if viewport.height > i32::MAX {
        Some("frame height"@)
    } else if viewport.storage_width > i32::MAX {
        Some("storage width"@)
    } else if viewport.storage_height > i32::MAX {
        Some("storage height"@)
    } else {
        None
    }
}

impl LibassSubtitleRenderer {
    /// A renderer of a script, given whether libass could read it. A script
    /// without bytes is refused.
    pub fn from_ass_script(script: &[u8], config: LibassRenderConfig, is_read: bool) -> (result:
        Result<Self>)
        ensures
            result is Ok <==> script@.len() > 0 && is_read,
            result matches Ok(renderer) ==> renderer.config == config,
            result matches Err(error) ==> error@ == SubtitleErrorModel::Libass(
                if script@.len() == 0 {
                    "ASS script is empty"@
                } else {
                    "failed to parse ASS script with libass"@
                },
            ),
    {
        if script.len() == 0 {
            return Err(SubtitleError::Libass("ASS script is empty".to_owned()));
        }
        match next_libass_step(LibassStep::ReadScript, is_read) {
            Ok(_) => Ok(Self { config }),
            Err(failure) => Err(failure.error),
        }
    }

    /// Takes another script, given whether libass could read it. One that is
    /// refused leaves the one before.
    pub fn replace_track(&mut self, script: &[u8], is_read: bool) -> (result: Result<()>)
        ensures
            *final(self) == *old(self),
            result is Ok <==> script@.len() > 0 && is_read,
            result matches Err(error) ==> error@ == SubtitleErrorModel::Libass(
                if script@.len() == 0 {
                    "ASS script is empty"@
                } else {
                    "failed to parse ASS script with libass"@
                },
            ),
    {
        match Self::from_ass_script(script, self.config, is_read) {
            Ok(_) => Ok(()),
            Err(error) => Err(error),
        }
    }

    /// The limits of the renderer.
    pub fn config(&self) -> (result: LibassRenderConfig)
        ensures
            result == self.config,
    {
        self.config
    }

    /// What libass is told for a request.
    pub fn render_plan(&self, request: SubtitleRenderRequest) -> (result: LibassRenderPlan)
        ensures
            result.request == request,
            result.config == self.config,
            result.operations@ == seq![
                LibassRenderOperation::SetFrameSize {
                    width: request.viewport.width,
                    height: request.viewport.height,
                },
                LibassRenderOperation::SetStorageSize {
                    width: request.viewport.storage_width,
                    height: request.viewport.storage_height,
                },
                LibassRenderOperation::SetCacheLimits {
                    glyphs: self.config.glyph_cache_limit,
                    bitmap_mb: self.config.bitmap_cache_limit_mb,
                },
                LibassRenderOperation::RenderFrame { timestamp_ms: millis_i64(request.pts@) },
            ],
    {
        LibassRenderPlan::new(request, self.config)
    }

    /// Who draws.
    pub fn backend(&self) -> (result: SubtitleRenderBackend)
        ensures
            result == SubtitleRenderBackend::Libass,
    {
        SubtitleRenderBackend::Libass
    }

    /// The sizes of the frame and of the video, as libass takes them.
    pub fn check_sizes(viewport: SubtitleRenderViewport) -> (result: Result<[i32; 4]>)
        ensures
            result is Ok <==> refused_size(viewport) is None,
            result matches Ok(sizes) ==> sizes@ == seq![
                viewport.width as i32,
                viewport.height as i32,
                viewport.storage_width as i32,
                viewport.storage_height as i32,
            ],
            result matches Err(error) ==> error@ == SubtitleErrorModel::Libass(
                refused_size(viewport)->0 + " exceeds libass integer range"@,
            ),
    {
        let frame_width = match libass_dimension(viewport.width, "frame width") {
            Ok(size) => size,
            Err(error) => {
                return Err(error);
            },
        };
        let frame_height = match libass_dimension(viewport.height, "frame height") {
            Ok(size) => size,
            Err(error) => {
                return Err(error);
            },
        };
        let storage_width = match libass_dimension(viewport.storage_width, "storage width") {
            Ok(size) => size,
            Err(error) => {
                return Err(error);
            },
        };
        let storage_height = match libass_dimension(viewport.storage_height, "storage height") {
            Ok(size) => size,
            Err(error) => {
                return Err(error);
            },
        };
        let sizes = [frame_width, frame_height, storage_width, storage_height];
        assert(sizes@ =~= seq![
            viewport.width as i32,
            viewport.height as i32,
            viewport.storage_width as i32,
            viewport.storage_height as i32,
        ]);
        Ok(sizes)
    }

    /// Draws the subtitles at a time, given the images that libass hands out for
    /// it and whether they differ from the last ones.
    pub fn render(
        &self,
        request: SubtitleRenderRequest,
        images: &[RawAssImage],
        changed: bool,
    ) -> (result: Result<SubtitleRenderOutput>)
        requires
            forall|i: int| 0 <= i < images@.len() ==> (#[trigger] images@[i]).is_backed(),
        ensures
            match refused_size(request.viewport) {
                Some(label) => result matches Err(error) && error@ == SubtitleErrorModel::Libass(
                    label + " exceeds libass integer range"@,
                ),
                None => match import_outcome(images@) {
                    Err(refusal) => result matches Err(error) && error@ == refusal,
                    Ok(parts) => result matches Ok(SubtitleRenderOutput::Alpha(set)) && set@ == (
                    BitmapSetModel {
                        pts: request.pts@,
                        frame_width: request.viewport.width,
                        frame_height: request.viewport.height,
                        color_space: SubtitleBitmapColorSpace::Video,
                        parts,
                        changed,
                    }),
                },
            },
    {
        if let Err(error) = Self::check_sizes(request.viewport) {
            return Err(error);
        }
        match LibassImageImporter::import_raw_list(
            request.pts,
            request.viewport.width,
            request.viewport.height,
            images,
            changed,
        ) {
            Ok(set) => Ok(SubtitleRenderOutput::Alpha(set)),
            Err(error) => Err(error),
        }
    }
}

/// A viewport is refused just if one of its sides is longer than can be told.
pub proof fn law_large_viewports_are_refused(viewport: SubtitleRenderViewport)
    ensures
        refused_size(viewport) is None <==> viewport.width <= i32::MAX && viewport.height
            <= i32::MAX && viewport.storage_width <= i32::MAX && viewport.storage_height
            <= i32::MAX,
{
}

} // verus!
