//! What renderers count.
use crate::time::Duration;
use vstd::prelude::*;

verus! {

/// What any renderer tells of itself.
#[derive(Debug, Clone, Copy, PartialEq, Eq, Structural)]
pub struct RendererRuntimeStats {
    pub surface_width: u32,
    pub surface_height: u32,
    pub rendered_frames: u64,
    pub offscreen_frames: u64,
    pub prepared_overlay_frames: u64,
    pub prepared_overlay_subtitle_planes: u64,
    pub danmaku_passes: u64,
    pub danmaku_draw_items: u64,
    pub overlay_alpha_atlas_uploads: u64,
    pub overlay_alpha_atlas_reuses: u64,
    pub last_danmaku_atlas_duration: Duration,
    pub last_danmaku_vertex_build_duration: Duration,
    pub last_danmaku_vertex_copy_duration: Duration,
    pub last_danmaku_encode_duration: Duration,
    pub last_danmaku_vertex_bytes: usize,
    pub last_danmaku_vertex_count: usize,
    pub attached: bool,
}

/// What a renderer of one kind counts.
#[derive(Debug, Clone, Copy, PartialEq, Eq, Structural)]
pub struct MetalRendererStats {
    pub drawable_width: u32,
    pub drawable_height: u32,
    pub rendered_frames: u64,
    pub prepared_overlay_frames: u64,
    pub prepared_overlay_subtitle_planes: u64,
    pub danmaku_passes: u64,
    pub danmaku_items: u64,
    pub overlay_alpha_atlas_uploads: u64,
    pub overlay_alpha_atlas_reuses: u64,
    pub last_danmaku_atlas_duration: Duration,
    pub last_danmaku_vertex_build_duration: Duration,
    pub last_danmaku_vertex_copy_duration: Duration,
    pub last_danmaku_encode_duration: Duration,
    pub last_danmaku_vertex_bytes: usize,
    pub last_danmaku_vertex_count: usize,
}

impl MetalRendererStats {
    /// What the renderer tells of itself. It is attached where it has pixels to
    /// draw to.
    pub fn runtime_stats(&self) -> (result: RendererRuntimeStats)
        ensures
            result == (RendererRuntimeStats {
                surface_width: self.drawable_width,
                surface_height: self.drawable_height,
                rendered_frames: self.rendered_frames,
                offscreen_frames: 0,
                prepared_overlay_frames: self.prepared_overlay_frames,
                prepared_overlay_subtitle_planes: self.prepared_overlay_subtitle_planes,
                danmaku_passes: self.danmaku_passes,
                danmaku_draw_items: self.danmaku_items,
                overlay_alpha_atlas_uploads: self.overlay_alpha_atlas_uploads,
                overlay_alpha_atlas_reuses: self.overlay_alpha_atlas_reuses,
                last_danmaku_atlas_duration: self.last_danmaku_atlas_duration,
                last_danmaku_vertex_build_duration: self.last_danmaku_vertex_build_duration,
                last_danmaku_vertex_copy_duration: self.last_danmaku_vertex_copy_duration,
                last_danmaku_encode_duration: self.last_danmaku_encode_duration,
                last_danmaku_vertex_bytes: self.last_danmaku_vertex_bytes,
                last_danmaku_vertex_count: self.last_danmaku_vertex_count,
                attached: self.drawable_width > 0 && self.drawable_height > 0,
            }),
    {
        RendererRuntimeStats {
            surface_width: self.drawable_width,
            surface_height: self.drawable_height,
            rendered_frames: self.rendered_frames,
            offscreen_frames: 0,
            prepared_overlay_frames: self.prepared_overlay_frames,
            prepared_overlay_subtitle_planes: self.prepared_overlay_subtitle_planes,
            danmaku_passes: self.danmaku_passes,
            danmaku_draw_items: self.danmaku_items,
            overlay_alpha_atlas_uploads: self.overlay_alpha_atlas_uploads,
            overlay_alpha_atlas_reuses: self.overlay_alpha_atlas_reuses,
            last_danmaku_atlas_duration: self.last_danmaku_atlas_duration,
            last_danmaku_vertex_build_duration: self.last_danmaku_vertex_build_duration,
            last_danmaku_vertex_copy_duration: self.last_danmaku_vertex_copy_duration,
            last_danmaku_encode_duration: self.last_danmaku_encode_duration,
            last_danmaku_vertex_bytes: self.last_danmaku_vertex_bytes,
            last_danmaku_vertex_count: self.last_danmaku_vertex_count,
            attached: self.drawable_width > 0 && self.drawable_height > 0,
        }
    }
}

/// What a renderer of the other kind counts.
#[derive(Debug, Clone, Copy, PartialEq, Eq, Structural)]
pub struct WgpuRendererStats {
    pub surface_width: u32,
    pub surface_height: u32,
    pub rendered_frames: u64,
    pub offscreen_frames: u64,
    pub danmaku_passes: u64,
    pub danmaku_items: u64,
    pub attached: bool,
}

impl Default for WgpuRendererStats {
    fn default() -> (result: Self)
        ensures
            result == (WgpuRendererStats {
                surface_width: 0,
                surface_height: 0,
                rendered_frames: 0,
                offscreen_frames: 0,
                danmaku_passes: 0,
                danmaku_items: 0,
                attached: false,
            }),
    {
        Self {
            surface_width: 0,
            surface_height: 0,
            rendered_frames: 0,
            offscreen_frames: 0,
            danmaku_passes: 0,
            danmaku_items: 0,
            attached: false,
        }
    }
}

impl WgpuRendererStats {
    /// What the renderer tells of itself. Times are not taken.
    pub fn runtime_stats(&self) -> (result: RendererRuntimeStats)
        ensures
            result.surface_width == self.surface_width,
            result.surface_height == self.surface_height,
            result.rendered_frames == self.rendered_frames,
            result.offscreen_frames == self.offscreen_frames,
            result.prepared_overlay_frames == 0,
            result.prepared_overlay_subtitle_planes == 0,
            result.danmaku_passes == self.danmaku_passes,
            result.danmaku_draw_items == self.danmaku_items,
            result.overlay_alpha_atlas_uploads == 0,
            result.overlay_alpha_atlas_reuses == 0,
            result.last_danmaku_atlas_duration@ == 0,
            result.last_danmaku_vertex_build_duration@ == 0,
            result.last_danmaku_vertex_copy_duration@ == 0,
            result.last_danmaku_encode_duration@ == 0,
            result.last_danmaku_vertex_bytes == 0,
            result.last_danmaku_vertex_count == 0,
            result.attached == self.attached,
    {
        RendererRuntimeStats {
            surface_width: self.surface_width,
            surface_height: self.surface_height,
            rendered_frames: self.rendered_frames,
            offscreen_frames: self.offscreen_frames,
            prepared_overlay_frames: 0,
            prepared_overlay_subtitle_planes: 0,
            danmaku_passes: self.danmaku_passes,
            danmaku_draw_items: self.danmaku_items,
            overlay_alpha_atlas_uploads: 0,
            overlay_alpha_atlas_reuses: 0,
            last_danmaku_atlas_duration: Duration::zero(),
            last_danmaku_vertex_build_duration: Duration::zero(),
            last_danmaku_vertex_copy_duration: Duration::zero(),
            last_danmaku_encode_duration: Duration::zero(),
            last_danmaku_vertex_bytes: 0,
            last_danmaku_vertex_count: 0,
            attached: self.attached,
        }
    }
}

} // verus!
