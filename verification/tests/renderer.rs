use erika::danmaku::{
    DanmakuFrameStats, DanmakuGlyphAtlas, DanmakuGlyphInstance, DanmakuRenderPlan, DanmakuViewport,
};
use erika::ffmpeg::codes::HardwareFormat;
use erika::ffmpeg::frame::Frame;
use erika::ffmpeg::planes::{
    PlanarFrame, PlanarPixelFormat, SourceFrame, SourcePixelFormat, SourcePlane,
};
use erika::ffmpeg::stamp::TimeBase;
use erika::float_bits::{Double, Single};
use erika::media::{ColorPrimaries, TransferFunction};
use erika::overlay::{OverlayFrame, OverlayViewport};
use erika::renderer::alpha_atlas::{pack_row, plan_rows, row_instances};
use erika::renderer::color::{
    ColorRange, ContentLightMetadata, HdrMetadata, MasteringDisplayMetadata, MatrixCoefficients,
    SourceColorState,
};
use erika::renderer::device::{
    check_device_surface, check_metal_surface, frame_pipeline, frame_planes, ColorNumbers,
    DrawStep, SurfaceTarget, VideoUniforms, WgpuClearColor, WgpuRenderer,
};
use erika::renderer::layer::{import_player_frame, MetalRenderer};
use erika::renderer::metal::{
    fourcc_string, inspect_overlay_frame, ImportedVideoFormat, ImportedVideoFrame,
    ImportedVideoFrameInfo, MetalDrawablePixelFormat, MetalOutputMode, MetalRendererConfig,
    OverlayRenderFrame, VideoRenderFrame, VideoRenderPipeline,
};
use erika::renderer::shared::{
    get_d3d11_texture_shared_handle, needs_new_shared_texture, shared_texture_to_make, AdapterLuid,
    CopyOutcome, D3d11SharedHandle, DirectOutcome, TextureDesc,
};
use erika::renderer::wgpu::{
    check_offscreen_size, check_planar_frame, choose_surface_format, danmaku_batches, danmaku_draw,
    ensure_instance_buffer, overlay_planes_to_draw, padded_bytes_per_row,
    plan_matches, scaled_surface_size, strip_row_padding, surface_extent, tone_map_code,
    transfer_code, OverlayUniforms, ToneMapOperator, VideoPresentationLayout,
    WgpuDanmakuAtlasCache, WgpuOffscreenReadback,
};
use erika::renderer::{RendererError, WgpuRendererStats};
use erika::subtitle::{SubtitleAlphaBitmap, SubtitleBitmapPlacement, SubtitleBitmapPlane};
use erika::time::Duration;

fn single(value: f32) -> Single {
    Single {
        bits: value.to_bits(),
    }
}

fn value(number: Single) -> f32 {
    f32::from_bits(number.bits)
}

fn test_imported_frame(
    import_range: ColorRange,
    source_color: SourceColorState,
) -> ImportedVideoFrame {
    ImportedVideoFrame {
        info: ImportedVideoFrameInfo {
            width: 1920,
            height: 1080,
            pixel_format: 0,
            pixel_format_fourcc: "test".to_string(),
            format: ImportedVideoFormat::P010,
            full_range: matches!(import_range, ColorRange::Full),
            color_range: import_range,
            planes: Vec::new(),
        },
        source_color,
        textures: None,
    }
}

#[test]
fn inspect_overlay_counts_subtitle_bytes() {
    let frame = OverlayFrame {
        pts: Duration::from_secs(1),
        viewport: OverlayViewport::new(640, 360),
        subtitle_planes: vec![SubtitleBitmapPlane {
            x: 0,
            y: 0,
            width: 10,
            height: 4,
            rgba: vec![255; 10 * 4 * 4],
        }],
        subtitle_alpha_planes: Vec::new(),
        subtitle_changed: true,
    };

    let info = inspect_overlay_frame(&frame).unwrap();

    assert_eq!(info.viewport_width, 640);
    assert_eq!(info.viewport_height, 360);
    assert_eq!(info.subtitle_planes, 1);
    assert_eq!(info.subtitle_pixels, 40);
    assert_eq!(info.subtitle_bytes, 160);
}

#[test]
fn inspect_overlay_counts_alpha_bitmap_bytes() {
    let frame = OverlayFrame {
        pts: Duration::zero(),
        viewport: OverlayViewport::new(640, 360),
        subtitle_planes: Vec::new(),
        subtitle_alpha_planes: vec![SubtitleAlphaBitmap::new(
            SubtitleBitmapPlacement::new(4, 8, 3, 2),
            5,
            0xff00ffff,
            vec![255; 8],
        )],
        subtitle_changed: true,
    };

    let info = inspect_overlay_frame(&frame).unwrap();

    assert_eq!(info.subtitle_planes, 1);
    assert_eq!(info.subtitle_pixels, 6);
    assert_eq!(info.subtitle_bytes, 8);
}

#[test]
fn inspect_overlay_rejects_malformed_alpha_bitmap() {
    let frame = OverlayFrame {
        pts: Duration::zero(),
        viewport: OverlayViewport::new(640, 360),
        subtitle_planes: Vec::new(),
        subtitle_alpha_planes: vec![SubtitleAlphaBitmap::new(
            SubtitleBitmapPlacement::new(4, 8, 3, 2),
            5,
            0xff00ffff,
            vec![255; 7],
        )],
        subtitle_changed: true,
    };

    assert!(inspect_overlay_frame(&frame).is_err());
    assert_eq!(
        inspect_overlay_frame(&frame).unwrap_err().message(),
        "subtitle alpha bitmap has 7 bytes, expected at least 8 for 3x2 stride 5"
    );
}

#[test]
fn inspect_overlay_rejects_malformed_rgba_plane() {
    let frame = OverlayFrame {
        pts: Duration::zero(),
        viewport: OverlayViewport::new(1, 1),
        subtitle_planes: vec![SubtitleBitmapPlane {
            x: 0,
            y: 0,
            width: 2,
            height: 2,
            rgba: vec![0; 15],
        }],
        subtitle_alpha_planes: Vec::new(),
        subtitle_changed: true,
    };

    assert!(inspect_overlay_frame(&frame).is_err());
    assert_eq!(
        inspect_overlay_frame(&frame).unwrap_err().message(),
        "subtitle plane has 15 bytes, expected 16 for 2x2 RGBA"
    );
    assert_eq!(
        overlay_planes_to_draw(&frame).unwrap_err().message(),
        "overlay subtitle plane has 15 bytes, expected 16 for 2x2 RGBA"
    );
}

#[test]
fn metal_output_mode_maps_sdr_to_default_drawable_and_target() {
    let output = MetalOutputMode::default();

    assert_eq!(output.pixel_format(), MetalDrawablePixelFormat::Bgra8Unorm);
    assert!(!output.is_edr());

    let target = output.target_color();
    assert_eq!(target.primaries, ColorPrimaries::Bt709);
    assert_eq!(target.transfer, TransferFunction::Srgb);
    assert_eq!(target.peak_nits, single(100.0));
    assert_eq!(target.edr_headroom, single(1.0));
    assert_eq!(MetalRendererConfig::default().output_mode, output);
}

#[test]
fn metal_output_mode_maps_apple_edr_to_float_drawable_and_headroom_target() {
    let output = MetalOutputMode::apple_edr(single(4.0));

    assert_eq!(output.pixel_format(), MetalDrawablePixelFormat::Rgba16Float);
    assert!(output.is_edr());

    let target = output.target_color();
    assert_eq!(target.primaries, ColorPrimaries::Bt709);
    assert_eq!(target.transfer, TransferFunction::Srgb);
    assert_eq!(target.peak_nits, single(812.0));
    assert_eq!(target.reference_white_nits, single(203.0));
    assert_eq!(target.edr_headroom, single(4.0));
}

#[test]
fn metal_output_mode_maps_pq_source_to_pq_edr_target() {
    let output = MetalOutputMode::apple_edr(single(4.0));
    let source = SourceColorState::new(ColorPrimaries::Bt2020, TransferFunction::Pq)
        .nominal_peak_nits(single(1200.0));

    let target = output.target_color_for_source(source);

    assert_eq!(target.primaries, ColorPrimaries::Bt2020);
    assert_eq!(target.transfer, TransferFunction::Pq);
    assert_eq!(target.peak_nits, single(10_000.0));
    assert_eq!(target.reference_white_nits, single(203.0));
    assert_eq!(target.edr_headroom, single(4.0));
}

#[test]
fn metal_output_mode_clamps_edr_headroom_to_one() {
    let target = MetalOutputMode::apple_edr(single(0.25)).target_color();

    assert_eq!(target.peak_nits, single(203.0));
    assert_eq!(target.edr_headroom, single(1.0));
}

#[test]
fn video_render_frame_uses_imported_source_color() {
    let source = SourceColorState::new(ColorPrimaries::Bt2020, TransferFunction::Pq)
        .range(ColorRange::Limited)
        .matrix(MatrixCoefficients::Bt2020NonConstantLuminance);
    let frame = test_imported_frame(ColorRange::Limited, source);

    let render_frame = VideoRenderFrame::new(&frame);

    assert_eq!(
        render_frame.pipeline.source.primaries,
        ColorPrimaries::Bt2020
    );
    assert_eq!(render_frame.pipeline.source.transfer, TransferFunction::Pq);
    assert_eq!(render_frame.pipeline.source.range, ColorRange::Limited);
    assert_eq!(
        render_frame.pipeline.source.matrix,
        MatrixCoefficients::Bt2020NonConstantLuminance
    );
}

#[test]
fn imported_frame_prefers_pixel_buffer_range_over_metadata() {
    let mut frame = test_imported_frame(
        ColorRange::Full,
        SourceColorState::new(ColorPrimaries::Unknown, TransferFunction::Unknown)
            .range(ColorRange::Full),
    );

    frame.set_source_color_metadata(
        ColorPrimaries::Bt709,
        TransferFunction::Srgb,
        ColorRange::Limited,
        MatrixCoefficients::Bt709,
        None,
    );

    assert_eq!(frame.source_color().range, ColorRange::Full);
    assert_eq!(frame.source_color().matrix, MatrixCoefficients::Bt709);
}

#[test]
fn imported_frame_applies_hdr_metadata_peak() {
    let mut frame = test_imported_frame(
        ColorRange::Limited,
        SourceColorState::new(ColorPrimaries::Unknown, TransferFunction::Unknown),
    );
    let metadata = HdrMetadata::new(
        None,
        Some(ContentLightMetadata {
            max_content_light_level_nits: 4000,
            max_frame_average_light_level_nits: 450,
        }),
    );

    frame.set_source_color_metadata(
        ColorPrimaries::Bt2020,
        TransferFunction::Pq,
        ColorRange::Limited,
        MatrixCoefficients::Bt2020NonConstantLuminance,
        Some(metadata),
    );

    assert_eq!(frame.source_color().hdr_metadata, Some(metadata));
    assert_eq!(
        frame.source_color().nominal_peak_nits,
        Some(single(4000.0))
    );
}

#[test]
fn imported_frame_uses_metadata_range_when_import_unspecified() {
    let mut frame = test_imported_frame(
        ColorRange::Unspecified,
        SourceColorState::new(ColorPrimaries::Unknown, TransferFunction::Unknown)
            .range(ColorRange::Unspecified),
    );

    frame.set_source_color(
        SourceColorState::new(ColorPrimaries::Bt709, TransferFunction::Srgb)
            .range(ColorRange::Full),
    );

    assert_eq!(frame.source_color().range, ColorRange::Full);
}

#[test]
fn peaks_come_from_the_content_or_the_display() {
    let display = MasteringDisplayMetadata {
        display_primaries: None,
        white_point: None,
        min_luminance_nits: None,
        max_luminance_nits: Some(single(1000.0)),
    };
    let light = |level: u32| ContentLightMetadata {
        max_content_light_level_nits: level,
        max_frame_average_light_level_nits: 1,
    };
    assert_eq!(
        HdrMetadata::new(Some(display), Some(light(0))).nominal_peak_nits(),
        Some(single(1000.0))
    );
    assert_eq!(
        HdrMetadata::new(Some(display), Some(light(4000))).nominal_peak_nits(),
        Some(single(4000.0))
    );
    assert_eq!(HdrMetadata::new(None, None).nominal_peak_nits(), None);
}

#[test]
fn render_frames_can_be_read_otherwise() {
    let source = SourceColorState::new(ColorPrimaries::Bt2020, TransferFunction::Pq)
        .range(ColorRange::Limited)
        .matrix(MatrixCoefficients::Bt709);
    let info = test_imported_frame(ColorRange::Unspecified, source).info;
    let frame = ImportedVideoFrame::new(info, Some(2));
    assert_eq!(frame.plane_count(), 2);
    assert_eq!(
        test_imported_frame(ColorRange::Unspecified, source).plane_count(),
        0
    );
    assert_eq!(frame.source_color().range, ColorRange::Limited);
    assert_eq!(frame.info().width, 1920);
    let other = VideoRenderFrame::new(&frame)
        .full_range(true)
        .source_color(ColorPrimaries::Bt709, TransferFunction::Srgb);
    assert_eq!(other.pipeline.source.range, ColorRange::Full);
    assert_eq!(other.pipeline.source.primaries, ColorPrimaries::Bt709);
    let pipeline = VideoRenderPipeline::new(source, other.pipeline.target);
    assert_eq!(other.pipeline(pipeline).pipeline.source, source);
}

#[test]
fn codes_are_written_as_characters_or_numbers() {
    assert_eq!(fourcc_string(0x34323076), "420v");
    assert_eq!(fourcc_string(0x20202020), "    ");
    assert_eq!(fourcc_string(0x0000_00ff), "0x000000ff");
    assert_eq!(fourcc_string(0xdead_beef), "0xdeadbeef");
}

// ---------------------------------------------------------------------------

#[test]
fn wgpu_video_rejects_wrong_plane_sizes() {
    let frame = |width: u32, height: u32, luma: usize, chroma: usize| PlanarFrame {
        format: PlanarPixelFormat::Nv12,
        width,
        height,
        luma: vec![0; luma],
        chroma: vec![0; chroma],
    };

    // Luma too short for a 4x4 frame.
    let result = check_planar_frame(&frame(4, 4, 8, 8), true);
    assert_eq!(
        result.unwrap_err().message(),
        "Nv12 luma plane is 8 bytes, expected 16"
    );

    // Odd dimensions are rejected.
    let result = check_planar_frame(&frame(3, 4, 12, 4), true);
    assert_eq!(result, Err(RendererError::OddFrame));

    assert!(matches!(
        check_planar_frame(&frame(4, 4, 16, 7), true),
        Err(RendererError::ChromaPlane {
            bytes: 7,
            expected: 8,
            ..
        })
    ));
    let upload = check_planar_frame(&frame(4, 4, 16, 8), false).unwrap();
    assert_eq!((upload.chroma_width, upload.chroma_height), (2, 2));
    assert_eq!(upload.luma_bytes_per_row, 4);
    let deep = PlanarFrame {
        format: PlanarPixelFormat::P010,
        width: 4,
        height: 4,
        luma: vec![0; 32],
        chroma: vec![0; 16],
    };
    assert_eq!(
        check_planar_frame(&deep, false),
        Err(RendererError::NoSixteenBits)
    );
    assert_eq!(check_planar_frame(&deep, true).unwrap().chroma_bytes_per_row, 8);
    assert_eq!(check_offscreen_size(0, 1), Err(RendererError::EmptyTarget));
    assert_eq!(check_offscreen_size(1, 1), Ok(()));
}

#[test]
fn wgpu_overlay_uniforms_map_source_rect_into_presentation_layout() {
    let layout = VideoPresentationLayout::aspect_fit(1920, 1080, 1000, 1000);
    let uniforms = OverlayUniforms::rgba_plane(960, 540, 192, 108, layout);

    assert_eq!(uniforms.viewport, [single(1000.0), single(1000.0)]);
    for (actual, expected) in uniforms.rect.into_iter().zip([500.0, 500.0, 100.0, 56.25]) {
        let actual = value(actual);
        assert!((actual - expected).abs() < 0.001, "{actual} != {expected}");
    }
}

#[test]
fn layouts_are_those_of_floating_point() {
    for (sw, sh, dw, dh) in [
        (1920u32, 1080u32, 1000u32, 1000u32),
        (1, 1, 3, 7),
        (0, 0, 0, 0),
        (4096, 2160, 1366, 768),
        (33, 77, 1234, 567),
    ] {
        let layout = VideoPresentationLayout::aspect_fit(sw, sh, dw, dh);
        let (fsw, fsh) = (sw.max(1) as f32, sh.max(1) as f32);
        let (fdw, fdh) = (dw.max(1) as f32, dh.max(1) as f32);
        let scale = (fdw / fsw).min(fdh / fsh);
        let (w, h) = (fsw * scale, fsh * scale);
        let rect = [(fdw - w) * 0.5, (fdh - h) * 0.5, w, h];
        assert_eq!(layout.target_rect.map(value), rect);
        let mapped = layout
            .map_source_rect(single(-7.5), single(3.25), single(11.0), single(0.1))
            .map(value);
        let (sx, sy) = (rect[2] / fsw, rect[3] / fsh);
        assert_eq!(
            mapped,
            [rect[0] + -7.5 * sx, rect[1] + 3.25 * sy, 11.0 * sx, 0.1 * sy]
        );
        assert_eq!(layout.video_viewport().map(value), [fdw, fdh, 0.0, 0.0]);
    }
}

#[test]
fn rows_lose_their_padding() {
    assert_eq!(padded_bytes_per_row(1), 256);
    assert_eq!(padded_bytes_per_row(64), 256);
    assert_eq!(padded_bytes_per_row(65), 512);
    let mut bytes = vec![9u8; 512];
    for i in 0..8 {
        bytes[i] = i as u8;
        bytes[256 + i] = 100 + i as u8;
    }
    let rgba = strip_row_padding(&bytes, 2, 2);
    assert_eq!(
        rgba,
        vec![0, 1, 2, 3, 4, 5, 6, 7, 100, 101, 102, 103, 104, 105, 106, 107]
    );
    let readback = WgpuOffscreenReadback {
        width: 2,
        height: 2,
        rgba,
    };
    assert_eq!(readback.pixel(1, 1), [104, 105, 106, 107]);
}

#[test]
fn shader_codes_are_fixed() {
    assert_eq!(transfer_code(TransferFunction::Unknown), 1);
    assert_eq!(transfer_code(TransferFunction::Srgb), 1);
    assert_eq!(transfer_code(TransferFunction::Bt1886), 2);
    assert_eq!(transfer_code(TransferFunction::Pq), 3);
    assert_eq!(transfer_code(TransferFunction::Hlg), 4);
    assert_eq!(tone_map_code(ToneMapOperator::Clip), 0);
    assert_eq!(tone_map_code(ToneMapOperator::Reinhard), 1);
    assert_eq!(tone_map_code(ToneMapOperator::Mobius), 2);
}

fn instance(outline: f32, shadow: f32) -> DanmakuGlyphInstance {
    DanmakuGlyphInstance {
        item_id: 1,
        rect: [1.0, 2.0, 4.0, 4.0].map(single),
        tex_rect: [0.0, 0.0, 1.0, 1.0].map(single),
        color_rgba: [1.0, 1.0, 1.0, 1.0].map(single),
        outline_rgba: [0.0, 0.0, 0.0, outline].map(single),
        shadow_rgba: [0.0, 0.0, 0.0, shadow].map(single),
        shadow_offset: [1.0, -1.5].map(single),
    }
}

#[test]
fn batches_draw_shadows_then_outlines_then_fills() {
    let batches = danmaku_batches(&vec![
        instance(0.75, 0.0),
        instance(0.0, 0.5),
        instance(-0.0, f32::NAN),
    ]);
    assert_eq!(batches.outlines.len(), 2);
    assert_eq!(batches.fills.len(), 3);
    assert_eq!(batches.outlines[0].rect.map(value), [2.0, 0.5, 4.0, 4.0]);
    assert_eq!(value(batches.outlines[0].color[3]), 0.5);
    assert_eq!(batches.outlines[1].rect.map(value), [1.0, 2.0, 4.0, 4.0]);
    assert_eq!(batches.required_len(), 144);
}

#[test]
fn comments_are_drawn_with_a_valid_atlas() {
    let atlas = DanmakuGlyphAtlas {
        width: 4,
        height: 4,
        stride: 4,
        fill_alpha: vec![255; 16],
        outline_alpha: vec![64; 16],
        version: 42,
    };
    let plan = |atlas: Option<DanmakuGlyphAtlas>, items: Vec<DanmakuGlyphInstance>| {
        let viewport = DanmakuViewport::new(640, 360);
        DanmakuRenderPlan {
            atlas,
            items,
            ..DanmakuRenderPlan::empty(Duration::zero(), 1, viewport)
        }
    };
    let items = || vec![instance(0.75, 0.0)];
    let draw = danmaku_draw(&plan(Some(atlas.clone()), items())).unwrap();
    assert_eq!(draw.viewport.map(value), [640.0, 360.0]);
    assert_eq!((draw.batches.outlines.len(), draw.batches.fills.len()), (1, 1));
    assert!(danmaku_draw(&plan(None, items())).is_none());
    assert!(danmaku_draw(&plan(Some(atlas.clone()), Vec::new())).is_none());
    let short = DanmakuGlyphAtlas {
        fill_alpha: vec![255; 15],
        ..atlas
    };
    assert!(danmaku_draw(&plan(Some(short), items())).is_none());
}

#[test]
fn atlases_are_kept_until_they_change() {
    let atlas = DanmakuGlyphAtlas {
        width: 4,
        height: 4,
        stride: 4,
        fill_alpha: vec![255; 16],
        outline_alpha: vec![64; 16],
        version: 42,
    };
    let cache = WgpuDanmakuAtlasCache::of(&atlas);
    assert!(cache.can_reuse_for(&atlas));
    let changed = DanmakuGlyphAtlas {
        version: 43,
        ..atlas
    };
    assert!(!cache.can_reuse_for(&changed));
}

#[test]
fn plans_are_drawn_only_for_what_is_shown() {
    let plan = DanmakuRenderPlan {
        media_time: Duration::from_millis(10),
        generation: 7,
        viewport: DanmakuViewport::new(32, 18),
        atlas: None,
        items: Vec::new(),
        frame_stats: DanmakuFrameStats::default(),
    };
    assert!(plan_matches(&plan, 7, Duration::from_millis(10), (0, 0)));
    assert!(plan_matches(&plan, 7, Duration::from_millis(10), (32, 18)));
    assert!(!plan_matches(&plan, 7, Duration::from_millis(10), (33, 18)));
    assert!(!plan_matches(&plan, 8, Duration::from_millis(10), (0, 0)));
    assert!(!plan_matches(&plan, 7, Duration::from_millis(11), (0, 0)));
}

#[test]
fn buffers_grow_to_powers_of_two() {
    assert_eq!(ensure_instance_buffer(None, 0), None);
    assert_eq!(ensure_instance_buffer(None, 1), Some(4096));
    assert_eq!(ensure_instance_buffer(Some(4096), 4096), None);
    assert_eq!(ensure_instance_buffer(Some(4096), 4097), Some(8192));
}

#[test]
fn surfaces_get_a_size_and_a_format() {
    let double = |value: f64| Double {
        bits: value.to_bits(),
    };
    assert_eq!(scaled_surface_size(0, 3, double(1.5)), (2, 5));
    assert_eq!(surface_extent(0, 7), (1, 7));
    assert_eq!(choose_surface_format(&[true, false, false]), Ok(1));
    assert_eq!(choose_surface_format(&[true, true]), Ok(0));
    assert_eq!(choose_surface_format(&[]), Err(RendererError::NoFormats));
    assert!(!WgpuRendererStats::default().runtime_stats().attached);
}

fn mask(width: u32, height: u32, stride: usize, fill: u8) -> SubtitleAlphaBitmap {
    let len = if width == 0 || height == 0 {
        0
    } else {
        stride * (height as usize - 1) + width as usize
    };
    SubtitleAlphaBitmap::new(
        SubtitleBitmapPlacement::new(5, -3, width, height),
        stride,
        0xff804000,
        (0..len).map(|i| fill + i as u8).collect(),
    )
}

#[test]
fn masks_are_packed_side_by_side() {
    let masks = vec![
        mask(3, 2, 4, 10),
        mask(0, 2, 4, 0),
        mask(2, 1, 2, 50),
        mask(4, 1, 4, 70),
    ];
    let rows = plan_rows(&masks, 5);
    assert_eq!(rows, vec![vec![0, 2], vec![3]]);
    let row = pack_row(&masks, &rows[0]);
    assert_eq!((row.width, row.height), (5, 2));
    assert_eq!(row.columns, vec![0, 3]);
    assert_eq!(row.pixels, vec![10, 11, 12, 50, 51, 14, 15, 16, 0, 0]);
    let layout = VideoPresentationLayout::aspect_fit(100, 100, 100, 100);
    let instances = row_instances(&masks, &rows[0], &row, layout);
    assert_eq!(instances.len(), 2);
    assert_eq!(instances[1].tex_rect.map(value), [3.0 / 5.0, 0.0, 2.0 / 5.0, 1.0 / 2.0]);
    assert_eq!(
        instances[0].color.map(value),
        [1.0, 128.0 / 255.0, 64.0 / 255.0, 1.0]
    );
    assert_eq!(instances[0].rect.map(value), [5.0, -3.0, 3.0, 2.0]);
}

fn double(value: f64) -> Double {
    Double {
        bits: value.to_bits(),
    }
}

fn numbers() -> ColorNumbers {
    let zero = single(0.0);
    let row = |x: f32, y: f32, z: f32| [single(x), single(y), single(z), zero];
    ColorNumbers {
        tone_map: ToneMapOperator::Mobius,
        source_peak_nits: single(1000.0),
        source_white_nits: single(203.0),
        luma: [single(0.2126), single(0.7152), single(0.0722)],
        gamut_matrix_rows: [row(1.0, 0.0, 0.0), row(0.0, 1.0, 0.0), row(0.0, 0.0, 1.0)],
    }
}

fn software_frame(format: SourcePixelFormat) -> Frame {
    let plane = |bytes: Vec<u8>, stride: i32| Some(SourcePlane { bytes, stride });
    Frame {
        width: 2,
        height: 2,
        sample_rate: 0,
        channels: 0,
        samples: 0,
        raw_format: 0,
        hardware: HardwareFormat::Other,
        pixel_format: None,
        sample_format: None,
        has_hw_frames_context: false,
        pts: 0,
        time_base: TimeBase { num: 1, den: 24 },
        primaries: 9,
        transfer: 16,
        range: 2,
        matrix: 9,
        mastering: None,
        light: Some((600, 100)),
        planes: SourceFrame {
            width: 2,
            height: 2,
            format,
            first: plane(vec![1, 2, 3, 4], 2),
            second: plane(vec![5], 1),
            third: plane(vec![6], 1),
        },
    }
}

#[test]
fn shaders_are_told_of_a_frame() {
    let frame = software_frame(SourcePixelFormat::Yuv420p);
    let pipeline = frame_pipeline(&frame);
    assert_eq!(pipeline.source.primaries, ColorPrimaries::Bt2020);
    assert_eq!(pipeline.source.nominal_peak_nits, Some(single(600.0)));
    assert_eq!(pipeline.target.primaries, ColorPrimaries::Bt709);
    let uniforms = VideoUniforms::from_pipeline(&pipeline, &numbers(), true, false);
    assert_eq!((uniforms.is_p010, uniforms.edr_output), (1, 0));
    assert_eq!(uniforms.full_range, 1);
    assert_eq!(uniforms.source_transfer, transfer_code(TransferFunction::Pq));
    assert_eq!(uniforms.tone_map, tone_map_code(ToneMapOperator::Mobius));
    assert_eq!(uniforms.nits.map(value), [1000.0, 100.0, 203.0, 100.0]);
    assert_eq!(uniforms.luma_coefficients.map(value)[..3], [0.2126, 0.7152, 0.0722]);
    assert_eq!(uniforms.rect.map(value), [0.0; 4]);
    let layout = VideoPresentationLayout::aspect_fit(2, 2, 40, 20);
    let placed = uniforms.placed(layout);
    assert_eq!(placed.rect.map(value), [10.0, 0.0, 20.0, 20.0]);
    assert_eq!(placed.viewport.map(value), [40.0, 20.0, 0.0, 0.0]);
    assert_eq!(frame_planes(&frame).unwrap().luma, vec![1, 2, 3, 4]);
    let other = software_frame(SourcePixelFormat::Other);
    assert_eq!(
        frame_planes(&other).unwrap_err().message(),
        "wgpu: frame is not software 4:2:0 8-bit/10-bit (unsupported format)"
    );
}

#[test]
fn surfaces_are_checked() {
    let hwnd = |raw_window: usize| SurfaceTarget::WindowsHwnd { raw_window };
    let layer = || SurfaceTarget::CoreAnimationLayer { raw_window: 1 };
    assert!(check_device_surface(hwnd(1), false).is_ok());
    assert_eq!(
        check_device_surface(hwnd(0), true).unwrap_err().message(),
        "invalid hwnd: null pointer"
    );
    assert!(check_device_surface(layer(), true).is_ok());
    assert_eq!(
        check_device_surface(layer(), false).unwrap_err().message(),
        "CoreAnimationLayer surface is only available on Apple platforms"
    );
    assert_eq!(
        check_device_surface(SurfaceTarget::Metal, true).unwrap_err().message(),
        "non-wgpu surface cannot be attached to WgpuRenderer"
    );
    let other = || SurfaceTarget::OtherWindow {
        kind: "LinuxXlib".to_string(),
    };
    assert_eq!(
        check_device_surface(other(), true).unwrap_err().message(),
        "wgpu surface kind LinuxXlib is not wired yet"
    );
    assert_eq!(check_metal_surface(other()), Err(RendererError::WgpuOnMetal));
    assert!(check_metal_surface(SurfaceTarget::Metal).is_ok());
    assert_eq!(
        check_metal_surface(SurfaceTarget::FlutterTexture),
        Err(RendererError::FlutterOnMetal)
    );
    assert_eq!(check_metal_surface(hwnd(1)), Err(RendererError::WgpuOnMetal));
    let clear = WgpuClearColor::new(double(0.25), double(0.5), double(0.75), double(1.0));
    assert_eq!(clear.blue, double(0.75));
}

#[test]
fn renderers_keep_their_surface_and_frame() {
    let mut renderer = WgpuRenderer::new(false);
    assert_eq!(renderer.stats(), WgpuRendererStats::default());
    assert_eq!(
        renderer.resize_surface(1, 1, double(1.0)).unwrap_err().message(),
        "no wgpu surface attached"
    );
    assert_eq!(
        renderer.attach_surface(10, 10, double(2.0), &[]),
        Err(RendererError::NoFormats)
    );
    assert!(renderer
        .attach_surface(320, 180, double(2.0), &[true, false])
        .is_ok());
    let surface = renderer.surface().unwrap();
    assert_eq!((surface.pixel_width, surface.pixel_height), (640, 360));
    assert_eq!(surface.format_index, 1);
    assert!(renderer.stats().attached);
    assert!(renderer.resize_surface(0, 90, double(2.0)).is_ok());
    assert_eq!(renderer.stats().surface_width, 2);
    assert_eq!(renderer.stats().surface_height, 180);
    renderer.restore_surface();
    assert_eq!(renderer.stats().surface_height, 180);

    let draws = |renderer: &WgpuRenderer| {
        renderer.plan_frame(None, None, 1, Duration::zero(), (0, 0))
    };
    assert_eq!(draws(&renderer), DrawStep::Nothing);
    assert_eq!(
        renderer.video_layout().unwrap_err(),
        RendererError::NoVideo
    );
    let frame = software_frame(SourcePixelFormat::Yuv420p);
    let uniforms =
        VideoUniforms::from_pipeline(&frame_pipeline(&frame), &numbers(), false, false);
    let planar = frame_planes(&frame).unwrap();
    let upload = renderer.upload_planar(&planar, uniforms).unwrap();
    assert_eq!((upload.chroma_width, upload.chroma_height), (1, 1));
    let deep = PlanarFrame {
        format: PlanarPixelFormat::P010,
        ..planar
    };
    assert_eq!(
        renderer.upload_planar(&deep, uniforms).unwrap_err(),
        RendererError::NoSixteenBits
    );
    renderer.replace_device(true);
    assert!(renderer.supports_16bit_norm());
    let (layout, placed) = renderer.video_layout().unwrap();
    assert_eq!(placed.rect, layout.target_rect);
    let plain = DrawStep::Draw {
        with_danmaku: false,
        needs_overlay: false,
    };
    assert_eq!(draws(&renderer), plain);
    renderer.frame_shown(3);
    renderer.frame_shown(0);
    let stats = renderer.stats();
    assert_eq!(stats.rendered_frames, 2);
    assert_eq!((stats.danmaku_passes, stats.danmaku_items), (1, 3));
    renderer.detach_surface();
    assert_eq!(draws(&renderer), DrawStep::Nothing);
    assert!(!renderer.stats().attached);
    renderer.test_frame_shown();
    assert_eq!(renderer.stats().offscreen_frames, 1);
    assert_eq!(renderer.stats().rendered_frames, 3);
}

#[test]
fn decoded_frames_are_taken() {
    let mut renderer = WgpuRenderer::new(false);
    let other = software_frame(SourcePixelFormat::Other);
    assert_eq!(
        renderer.upload_player_frame(&other, false, &numbers()).unwrap_err(),
        RendererError::UnsupportedFrame
    );
    assert!(renderer.render_current_offscreen(&[0; 512]).is_none());
    let frame = software_frame(SourcePixelFormat::Yuv420p);
    let upload = renderer
        .upload_player_frame(&frame, false, &numbers())
        .unwrap()
        .unwrap();
    assert_eq!((upload.chroma_width, upload.chroma_height), (1, 1));
    assert_eq!(upload.luma_bytes_per_row, 2);
    assert!(renderer.render_current_offscreen(&[0; 512]).is_some());

    let mut shared = WgpuRenderer::new(false);
    assert!(shared
        .upload_player_frame(&other, true, &numbers())
        .unwrap()
        .is_none());
    assert!(shared.render_current_offscreen(&[0; 512]).is_some());
}

#[test]
fn frames_are_drawn_off_screen() {
    let mut renderer = WgpuRenderer::new(false);
    assert!(renderer.render_current_offscreen(&[]).is_none());
    let frame = software_frame(SourcePixelFormat::Yuv420p);
    let uniforms =
        VideoUniforms::from_pipeline(&frame_pipeline(&frame), &numbers(), false, false);
    assert!(matches!(
        renderer.upload_nv12(2, 2, vec![1; 3], vec![5, 6], uniforms),
        Err(RendererError::LumaPlane { bytes: 3, expected: 4, .. })
    ));
    assert!(matches!(
        renderer.upload_nv12(2, 2, vec![1; 4], vec![5], uniforms),
        Err(RendererError::ChromaPlane { bytes: 1, expected: 2, .. })
    ));
    assert!(matches!(
        renderer.upload_nv12(3, 2, vec![1; 6], vec![5], uniforms),
        Err(RendererError::OddFrame)
    ));
    assert!(renderer
        .upload_nv12(2, 2, vec![1; 4], vec![5, 6], uniforms)
        .is_ok());
    let bytes: Vec<u8> = (0..512).map(|at| at as u8).collect();
    let read = renderer.render_current_offscreen(&bytes).unwrap();
    assert_eq!((read.width, read.height), (2, 2));
    assert_eq!(read.rgba[..8], bytes[..8]);
    assert_eq!(read.rgba[8..], bytes[256..264]);
    assert_eq!(renderer.stats().rendered_frames, 1);
    assert_eq!(
        renderer.clear_offscreen(0, 2, &bytes).unwrap_err(),
        RendererError::EmptyTarget
    );
    let cleared = renderer.clear_offscreen(1, 2, &bytes).unwrap();
    assert_eq!(cleared.rgba, vec![0, 1, 2, 3, 0, 1, 2, 3]);
    assert_eq!(renderer.stats().offscreen_frames, 1);
}

#[test]
fn layers_are_drawn_where_there_are_any() {
    assert_eq!(
        MetalRenderer::new(false).unwrap_err().message(),
        "Metal renderer is only available on Apple platforms for v0"
    );
    let mut renderer = MetalRenderer::new(true).unwrap();
    assert_eq!(renderer.config.output_mode, MetalOutputMode::Sdr);
    assert_eq!(renderer.plan_frame(None, 1, Duration::zero(), (0, 0)), None);
    let frame = software_frame(SourcePixelFormat::Other);
    assert_eq!(
        import_player_frame(&frame, None).unwrap_err().message(),
        "decoded frame is not backed by VideoToolbox CVPixelBuffer"
    );
    let textures = || {
        test_imported_frame(
            ColorRange::Limited,
            SourceColorState::new(ColorPrimaries::Unknown, TransferFunction::Unknown),
        )
    };
    let time = Duration::from_millis(40);
    let refused = renderer.upload_player_frame(&frame, None, None, time, 4);
    assert_eq!(refused, Err(RendererError::NotVideoToolbox));
    assert!(renderer.current_frame.is_none());
    let taken = renderer.upload_player_frame(&frame, Some(textures()), None, time, 0);
    assert!(taken.is_ok());
    assert_eq!(renderer.current_media_time, time);
    assert_eq!(renderer.current_generation, 1);
    let color = renderer.current_frame.as_ref().unwrap().source_color();
    assert_eq!(color.primaries, ColorPrimaries::Bt2020);
    assert_eq!(color.range, ColorRange::Limited);
    assert_eq!(color.nominal_peak_nits, Some(single(600.0)));
    assert_eq!(
        renderer.plan_frame(None, 1, Duration::zero(), (0, 0)),
        Some(false)
    );
    let overlay = OverlayFrame {
        pts: Duration::zero(),
        viewport: OverlayViewport::new(640, 360),
        subtitle_planes: vec![SubtitleBitmapPlane {
            x: 0,
            y: 0,
            width: 2,
            height: 1,
            rgba: vec![255; 8],
        }],
        subtitle_alpha_planes: Vec::new(),
        subtitle_changed: true,
    };
    let info = renderer
        .prepare_overlay_frame(OverlayRenderFrame::new(&overlay))
        .unwrap();
    assert_eq!((info.subtitle_pixels, info.subtitle_bytes), (2, 8));
}

#[test]
fn wgpu_renderer_prepares_danmaku_glyph_atlas_draws_and_reuses_cache() {
    let atlas = DanmakuGlyphAtlas {
        width: 4,
        height: 4,
        stride: 4,
        fill_alpha: vec![255; 16],
        outline_alpha: vec![64; 16],
        version: 42,
    };
    let plan = DanmakuRenderPlan {
        media_time: Duration::from_millis(10),
        generation: 7,
        viewport: DanmakuViewport::new(32, 18),
        atlas: Some(atlas.clone()),
        items: vec![DanmakuGlyphInstance {
            item_id: 1,
            rect: [1.0, 2.0, 4.0, 4.0].map(single),
            tex_rect: [0.0, 0.0, 1.0, 1.0].map(single),
            color_rgba: [1.0, 1.0, 1.0, 1.0].map(single),
            outline_rgba: [0.0, 0.0, 0.0, 0.75].map(single),
            shadow_rgba: [0.0, 0.0, 0.0, 0.0].map(single),
            shadow_offset: [1.0, 1.0].map(single),
        }],
        frame_stats: DanmakuFrameStats::default(),
    };

    let draws = danmaku_batches(&plan.items);
    assert_eq!(draws.outlines.len() + draws.fills.len(), 2);
    let cache = WgpuDanmakuAtlasCache::of(plan.atlas.as_ref().unwrap());
    assert!(cache.can_reuse_for(&atlas));

    let cached_draws = danmaku_batches(&plan.items);
    assert_eq!(cached_draws.outlines.len() + cached_draws.fills.len(), 2);
    assert!(cache.can_reuse_for(&atlas));
}

#[test]
fn wgpu_renderer_render_test_frame_without_surface_uses_offscreen_path() {
    let mut renderer = WgpuRenderer::new(false);

    renderer.test_frame_shown();

    let stats = renderer.stats();
    assert_eq!(stats.rendered_frames, 1);
    assert_eq!(stats.offscreen_frames, 1);
    assert!(!stats.attached);
}

#[test]
fn wgpu_renderer_rejects_metal_surface() {
    let result = check_device_surface(SurfaceTarget::Metal, true);

    assert!(matches!(result, Err(RendererError::ForeignSurface)));
}

#[test]
fn wgpu_renderer_is_usable_as_dyn_backend_and_reports_no_current_frame() {
    let renderer = WgpuRenderer::new(false);
    assert_eq!(
        renderer.plan_frame(None, None, 1, Duration::zero(), (0, 0)),
        DrawStep::Nothing
    );
}

fn sharing() -> (DirectOutcome, CopyOutcome) {
    let direct = DirectOutcome {
        has_texture: true,
        resource: Ok(()),
        is_shareable: true,
        nt_handle: Some(1),
        kernel_handle: Some(2),
    };
    let copy = CopyOutcome {
        device: Ok(()),
        context: Ok(()),
        cache: Ok(()),
        texture: Ok(true),
        resource: Ok(()),
        has_nt_handles: true,
        nt_handle: Some(3),
        shareable: Ok(()),
        kernel_handle: Ok(4),
    };
    (direct, copy)
}

#[test]
fn textures_are_shared() {
    let desc = TextureDesc {
        width: 4,
        height: 2,
        format: 103,
        sample_count: 1,
        sample_quality: 0,
    };
    let luid = AdapterLuid { low: 7, high: -1 };
    let mut cache = None;
    let mut share = |direct: DirectOutcome, copy: CopyOutcome| {
        let shared = get_d3d11_texture_shared_handle(&mut cache, desc, Some(luid), direct, copy);
        (shared.map(|shared| shared.handle), cache.is_some())
    };
    let told = |text: &str| Err(text.to_string());
    let (direct, copy) = sharing();
    assert_eq!(share(direct, copy), (Ok(1), false));
    let (direct, copy) = sharing();
    let direct = DirectOutcome { nt_handle: None, ..direct };
    assert_eq!(share(direct, copy), (Ok(2), false));
    let (direct, copy) = sharing();
    let direct = DirectOutcome { has_texture: false, ..direct };
    assert_eq!(share(direct, copy), (told("d3d11 texture pointer is null"), false));
    let (direct, copy) = sharing();
    let direct = DirectOutcome { resource: Err("no".to_string()), ..direct };
    let text = "failed to cast ID3D11Texture2D to ID3D11Resource: no";
    assert_eq!(share(direct, copy), (told(text), false));

    let copying = || DirectOutcome { is_shareable: false, ..sharing().0 };
    let mut refused = |copy: CopyOutcome, text: &str, is_cached: bool| {
        assert_eq!(share(copying(), copy), (told(text), is_cached));
    };
    let no = || Err("no".to_string());
    let text = "failed to get ID3D11Device from texture: no";
    refused(CopyOutcome { device: no(), context: no(), ..sharing().1 }, text, false);
    let text = "failed to get immediate context: no";
    refused(CopyOutcome { context: no(), ..sharing().1 }, text, false);
    refused(CopyOutcome { cache: no(), ..sharing().1 }, "cache lock failed: no", false);
    let text = "CreateTexture2D returned null";
    refused(CopyOutcome { texture: Ok(false), ..sharing().1 }, text, false);
    let text = "CreateTexture2D for shared copy failed: no";
    refused(CopyOutcome { texture: Err("no".to_string()), ..sharing().1 }, text, false);
    let text = "cast shared texture to ID3D11Resource: no";
    refused(CopyOutcome { resource: no(), ..sharing().1 }, text, true);
    let without = |has_nt_handles: bool| CopyOutcome {
        has_nt_handles,
        nt_handle: None,
        texture: Ok(false),
        ..sharing().1
    };
    let text = "cast to IDXGIResource failed: no";
    refused(CopyOutcome { shareable: no(), ..without(true) }, text, true);
    let text = "cast to IDXGIResource also failed: no";
    refused(CopyOutcome { shareable: no(), ..without(false) }, text, true);
    let failed = || Err("no".to_string());
    let text = "GetSharedHandle also failed: no";
    refused(CopyOutcome { kernel_handle: failed(), ..without(true) }, text, true);
    let text = "GetSharedHandle failed: no";
    refused(CopyOutcome { kernel_handle: failed(), ..without(false) }, text, true);
    assert_eq!(share(copying(), without(false)), (Ok(4), true));
    assert_eq!(share(copying(), sharing().1), (Ok(3), true));

    let (direct, copy) = sharing();
    assert_eq!(
        get_d3d11_texture_shared_handle(&mut cache, desc, None, direct, copy),
        Ok(D3d11SharedHandle {
            handle: 1,
            width: 4,
            height: 2,
            format: 103,
            adapter_luid: AdapterLuid { low: 0, high: 0 },
        })
    );
    assert!(!needs_new_shared_texture(cache, desc));
    assert!(needs_new_shared_texture(cache, TextureDesc { format: 104, ..desc }));
    assert!(needs_new_shared_texture(None, desc));
    assert_eq!(shared_texture_to_make(cache, desc), None);
    let made = shared_texture_to_make(None, desc).unwrap();
    assert_eq!((made.width, made.height, made.format), (desc.width, desc.height, desc.format));
    assert_eq!((made.mip_levels, made.array_size), (1, 1));
    assert_eq!((made.sample_count, made.sample_quality), (1, 0));
    assert_eq!((made.bind_flags, made.cpu_access_flags), (0, 0));
    assert!(made.is_shared && made.has_nt_handle);
}
