use erika::ffmpeg::avio::{AvioPosition, AvioRead, AvioSeek, SourceLength, Whence};
use erika::ffmpeg::codes::{
    color_primaries, color_range, decode_backend, frame_hdr_metadata, hardware_frame_size,
    hardware_pixel_format, matrix_coefficients, next_hardware_step, offers_format,
    rational_to_positive_f32, track_kind, transfer_function, DecoderBackend, DecoderConfig,
    HardwareConfig, HardwareFormat, HardwareStep, Rational, RawMasteringDisplay,
};
use erika::ffmpeg::decoder::{
    AudioResampler, CodecOutcome, Decoder, DecoderOutputFrame, ResamplerOutcome, SubtitleDecoder,
};
use erika::ffmpeg::demuxer::{
    probe_uri, Demuxer, FormatOutcome, ReadStep, SourceOutcome, AVERROR_EOF,
};
use erika::ffmpeg::frame::Frame;
use erika::ffmpeg::packet::Packet;
use erika::ffmpeg::pcm::PcmFormat;
use erika::ffmpeg::planes::{PlanarPixelFormat, SourceFrame, SourcePixelFormat, SourcePlane};
use erika::ffmpeg::probe::{
    inspect_format_context, subtitle_probe, CodecDescriptor, StreamDescriptor,
};
use erika::ffmpeg::stamp::{
    av_error, check, check_packet_stream, check_subtitle_kind, duration_from_av, has_stream,
    seek_target, stream_time_base, timestamp_value, unknown_stream, FfmpegError, PacketFlags,
    PacketTimestamp, StreamSelection, TimeBase,
};
use erika::ffmpeg::subtitle::{
    import_av_subtitle, palette_color_to_rgba, subtitle_bitmap_rect_to_rgba_plane, SubtitlePacket,
    SubtitleRect, SubtitleRectKind,
};
use erika::float_bits::Single;
use erika::media::{ColorPrimaries, TrackInfo, TrackKind, TransferFunction};
use erika::renderer::color::{ColorRange, MatrixCoefficients};
use erika::subtitle::SubtitleTextFormat;
use erika::time::Duration;

fn value(number: Single) -> f32 {
    f32::from_bits(number.bits)
}

fn rational(num: i32, den: i32) -> Rational {
    Rational { num, den }
}

fn assert_close(actual: Single, expected: f32) {
    let actual = value(actual);
    assert!(
        (actual - expected).abs() < 0.0001,
        "expected {expected}, got {actual}"
    );
}

fn empty_rect(kind: SubtitleRectKind) -> SubtitleRect {
    SubtitleRect {
        kind,
        text: None,
        ass: None,
        flags: 0,
        x: 0,
        y: 0,
        w: 0,
        h: 0,
        stride: 0,
        colors: 0,
        pixels: None,
        palette: None,
    }
}

#[test]
fn time_base_converts_packet_timestamps() {
    let timestamp = PacketTimestamp {
        raw: 24,
        time_base: TimeBase { num: 1, den: 24 },
    };
    assert_eq!(f64::from_bits(timestamp.seconds().bits), 1.0);
    assert_eq!(timestamp.as_duration(), Some(Duration::from_secs(1)));
}

#[test]
fn stamps_are_converted_as_floating_point_does() {
    for (num, den) in [(1, 24), (1001, 24_000), (1, 90_000), (1, 1_000_000), (-1, -3)] {
        for raw in [0i64, 1, 7, 1001, 123_456_789, 9_007_199_254_740_993] {
            let seconds = raw as f64 * num as f64 / den as f64;
            let told = TimeBase { num, den }.seconds_from_timestamp(raw);
            assert_eq!(told.bits, seconds.to_bits(), "{raw} * {num}/{den}");
            let expected = std::time::Duration::try_from_secs_f64(seconds).ok();
            let stamp = PacketTimestamp {
                raw,
                time_base: TimeBase { num, den },
            };
            assert_eq!(
                stamp.checked_duration().map(|time| time.map(|t| t.as_nanos())),
                expected.map(|time| Some(time.as_nanos())),
                "{raw} * {num}/{den}"
            );
        }
    }
    let negative = PacketTimestamp {
        raw: -5,
        time_base: TimeBase { num: 1, den: 24 },
    };
    assert_eq!(negative.as_duration(), None);
    let endless = PacketTimestamp {
        raw: i64::MAX,
        time_base: TimeBase { num: i32::MAX, den: 1 },
    };
    assert_eq!(endless.checked_duration(), None);
}

#[test]
fn stream_selection_accepts_expected_streams() {
    let selection = StreamSelection::only(&[0, 2]);
    assert!(selection.accepts(0));
    assert!(!selection.accepts(1));
    assert!(selection.accepts(2));
    assert!(StreamSelection::all().accepts(-4));
}

#[test]
fn maps_ffmpeg_color_ranges() {
    assert_eq!(color_range(1), ColorRange::Limited);
    assert_eq!(color_range(2), ColorRange::Full);
    assert_eq!(color_range(0), ColorRange::Unspecified);
}

#[test]
fn maps_ffmpeg_matrix_coefficients() {
    assert_eq!(matrix_coefficients(1), MatrixCoefficients::Bt709);
    assert_eq!(matrix_coefficients(6), MatrixCoefficients::Bt601);
    assert_eq!(matrix_coefficients(5), MatrixCoefficients::Bt601);
    assert_eq!(
        matrix_coefficients(9),
        MatrixCoefficients::Bt2020NonConstantLuminance
    );
    assert_eq!(matrix_coefficients(0), MatrixCoefficients::Identity);
    assert_eq!(matrix_coefficients(2), MatrixCoefficients::Unspecified);
}

#[test]
fn codes_of_streams_are_read() {
    assert_eq!(track_kind(0), Some(TrackKind::Video));
    assert_eq!(track_kind(1), Some(TrackKind::Audio));
    assert_eq!(track_kind(3), Some(TrackKind::Subtitle));
    assert_eq!(track_kind(2), None);
    assert_eq!(color_primaries(1), ColorPrimaries::Bt709);
    assert_eq!(color_primaries(9), ColorPrimaries::Bt2020);
    assert_eq!(color_primaries(2), ColorPrimaries::Unknown);
    assert_eq!(transfer_function(16), TransferFunction::Pq);
    assert_eq!(transfer_function(18), TransferFunction::Hlg);
    assert_eq!(transfer_function(13), TransferFunction::Srgb);
    assert_eq!(transfer_function(0), TransferFunction::Unknown);
}

#[test]
fn subtitle_probe_marks_embedded_tracks_non_removable() {
    let mut track = TrackInfo::embedded(3, TrackKind::Subtitle);
    track.title = Some("Signs".to_string());
    track.language = Some("jpn".to_string());
    track.codec = Some("hdmv_pgs_subtitle".to_string());

    let config = subtitle_probe(&track);

    assert_eq!(config.id, 3);
    assert_eq!(config.language.as_deref(), Some("jpn"));
    assert_eq!(config.title.as_deref(), Some("Signs"));
    assert!(config.source.is_embedded());
    assert!(!config.can_remove());
}

#[test]
fn imports_av_subtitle_text_and_ass_rects() {
    let text_rect = SubtitleRect {
        text: Some("hello".to_string()),
        flags: 1,
        ..empty_rect(SubtitleRectKind::Text)
    };
    let ass_rect = SubtitleRect {
        ass: Some("Dialogue: 0,0:00:01.00,0:00:02.00,Default,,0,0,0,,hi".to_string()),
        ..empty_rect(SubtitleRectKind::Ass)
    };
    let subtitle = SubtitlePacket {
        pts: 1_000_000,
        start_display_time: 250,
        end_display_time: 1250,
        rects: vec![Some(text_rect), Some(ass_rect)],
    };

    let frame = import_av_subtitle(7, None, &subtitle).unwrap();

    assert_eq!(frame.track_id, 7);
    assert_eq!(frame.start, Some(Duration::from_millis(1250)));
    assert_eq!(frame.end, Some(Duration::from_millis(2250)));
    assert_eq!(frame.text.len(), 2);
    assert_eq!(frame.text[0].format, SubtitleTextFormat::PlainText);
    assert_eq!(frame.text[0].text, "hello");
    assert!(frame.text[0].forced);
    assert_eq!(frame.text[1].format, SubtitleTextFormat::Ass);
    assert!(frame.forced);
}

#[test]
fn imports_palette_bitmap_subtitle_as_rgba_plane() {
    let rect = SubtitleRect {
        x: 11,
        y: 22,
        w: 2,
        h: 2,
        stride: 2,
        colors: 3,
        pixels: Some(vec![0, 1, 2, 1]),
        palette: Some(vec![0x00000000, 0x804020ff, 0xff00ff80]),
        ..empty_rect(SubtitleRectKind::Bitmap)
    };
    let subtitle = SubtitlePacket {
        pts: 2_000_000,
        start_display_time: 0,
        end_display_time: 500,
        rects: vec![Some(rect)],
    };

    let frame = import_av_subtitle(9, None, &subtitle).unwrap();

    assert_eq!(frame.start, Some(Duration::from_secs(2)));
    assert_eq!(frame.end, Some(Duration::from_millis(2500)));
    assert_eq!(frame.bitmap.planes.len(), 1);
    let plane = &frame.bitmap.planes[0];
    assert_eq!(
        (plane.x, plane.y, plane.width, plane.height),
        (11, 22, 2, 2)
    );
    assert_eq!(
        plane.rgba,
        vec![
            0, 0, 0, 0, 0x40, 0x20, 0xff, 0x80, 0x00, 0xff, 0x80, 0xff, 0x40, 0x20, 0xff, 0x80,
        ]
    );
    assert_eq!(palette_color_to_rgba(0x01020304), [2, 3, 4, 1]);
}

#[test]
fn rejects_malformed_bitmap_subtitle_rect() {
    let rect = SubtitleRect {
        w: 4,
        h: 2,
        stride: 3,
        colors: 1,
        pixels: Some(vec![0; 8]),
        palette: Some(vec![0xffffffff]),
        ..empty_rect(SubtitleRectKind::Bitmap)
    };

    let error = subtitle_bitmap_rect_to_rgba_plane(&rect).unwrap_err();

    assert!(matches!(error, FfmpegError::InvalidSubtitleBitmap { .. }));
}

#[test]
fn subtitles_without_a_stamp_take_that_of_their_packet() {
    let subtitle = SubtitlePacket {
        pts: i64::MIN,
        start_display_time: 0,
        end_display_time: u32::MAX,
        rects: vec![None, Some(empty_rect(SubtitleRectKind::Other))],
    };
    let packet = PacketTimestamp {
        raw: 3,
        time_base: TimeBase { num: 1, den: 2 },
    };
    let frame = import_av_subtitle(1, Some(packet), &subtitle).unwrap();
    assert_eq!(frame.start, Some(Duration::from_millis(1500)));
    assert_eq!(frame.end, None);
    assert!(frame.text.is_empty());
    assert_eq!(import_av_subtitle(1, None, &subtitle).unwrap().start, None);
}

fn decoded_frame() -> Frame {
    Frame {
        width: 2,
        height: 2,
        sample_rate: 0,
        channels: 0,
        samples: 0,
        raw_format: 0,
        hardware: HardwareFormat::Other,
        pixel_format: Some("yuv420p".to_string()),
        sample_format: None,
        has_hw_frames_context: false,
        pts: i64::MIN,
        time_base: TimeBase { num: 1, den: 24 },
        primaries: 1,
        transfer: 16,
        range: 2,
        matrix: 1,
        mastering: None,
        light: None,
        planes: SourceFrame {
            width: 2,
            height: 2,
            format: SourcePixelFormat::Other,
            first: None,
            second: None,
            third: None,
        },
    }
}

#[test]
fn frame_reads_hdr_side_data() {
    let raw = RawMasteringDisplay {
        has_primaries: true,
        red: (rational(708, 1000), rational(292, 1000)),
        green: (rational(170, 1000), rational(797, 1000)),
        blue: (rational(131, 1000), rational(46, 1000)),
        white_point: (rational(3127, 10000), rational(3290, 10000)),
        has_luminance: true,
        min_luminance: rational(5, 1000),
        max_luminance: rational(1000, 1),
    };

    let frame = Frame {
        mastering: Some(raw),
        light: Some((4000, 450)),
        ..decoded_frame()
    };
    let metadata = frame.hdr_metadata().unwrap();
    let mastering = metadata.mastering_display.unwrap();
    let content_light = metadata.content_light.unwrap();

    assert_eq!(metadata.nominal_peak_nits().map(value), Some(4000.0));
    assert_eq!(content_light.max_content_light_level_nits, 4000);
    assert_eq!(content_light.max_frame_average_light_level_nits, 450);
    assert_close(mastering.max_luminance_nits.unwrap(), 1000.0);
    assert_close(mastering.min_luminance_nits.unwrap(), 0.005);
    assert_close(mastering.display_primaries.unwrap().red.x, 0.708);
    assert_close(mastering.white_point.unwrap().y, 0.329);
    assert!(frame_hdr_metadata(None, None).is_none());
}

#[test]
fn fractions_are_those_of_floating_point() {
    for num in [1i32, 5, 708, 3127, 16_777_217, i32::MAX] {
        for den in [1i32, 3, 1000, 10_000, 50_000, i32::MAX] {
            assert_eq!(
                rational_to_positive_f32(rational(num, den)).map(value),
                Some(num as f32 / den as f32)
            );
        }
    }
    assert_eq!(rational_to_positive_f32(rational(1, 0)), None);
    assert_eq!(rational_to_positive_f32(rational(-1, 2)), None);
    assert_eq!(rational_to_positive_f32(rational(0, 2)), None);
    assert_eq!(
        rational_to_positive_f32(rational(-1, -2)).map(value),
        Some(0.5)
    );
}

fn codec(media_type: i32, stream_index: i32) -> CodecDescriptor {
    CodecDescriptor {
        media_type,
        stream_index,
        codec: Some("codec".to_string()),
        title: None,
        language: Some("jpn".to_string()),
        width: 1920,
        height: -1,
        primaries: 9,
        transfer: 16,
        level: 0,
        pixel_format: None,
        profile: None,
        sample_rate: 48_000,
        channels: 2,
        sample_format: Some("fltp".to_string()),
    }
}

#[test]
fn streams_become_tracks() {
    let stream = |codec: Option<CodecDescriptor>| {
        Some(StreamDescriptor {
            time_base_num: 1,
            time_base_den: 24,
            codec,
        })
    };
    let (probe, bases) = inspect_format_context(
        "file.mkv".to_string(),
        2_500_000,
        &[
            stream(Some(codec(0, 0))),
            None,
            stream(Some(codec(1, 2))),
            stream(Some(codec(3, 3))),
            stream(Some(codec(2, 4))),
            stream(None),
        ],
    );
    assert_eq!(probe.duration, Some(Duration::from_millis(2500)));
    assert_eq!(
        probe.tracks.iter().map(|track| track.id).collect::<Vec<_>>(),
        vec![0, 2, 3]
    );
    assert_eq!(probe.video.len(), 1);
    let params = &probe.video[0].params;
    assert_eq!((params.width, params.height), (1920, 0));
    assert_eq!(params.primaries, ColorPrimaries::Bt2020);
    assert_eq!(probe.audio[0].sample_rate, 48_000);
    assert_eq!(probe.subtitles[0].id, 3);
    assert_eq!(bases.len(), 6);
    assert_eq!(bases[1], None);
    assert_eq!(bases[2], Some(TimeBase { num: 1, den: 24 }));

    assert_eq!(stream_time_base(&bases, 2), Some(TimeBase { num: 1, den: 24 }));
    assert_eq!(stream_time_base(&bases, 6), None);
    assert!(has_stream(&bases, &probe.tracks, 2));
    assert!(!has_stream(&bases, &probe.tracks, 1));
    assert_eq!(
        unknown_stream(&StreamSelection::only(&[0, 9]), &bases, &probe.tracks),
        Some(9)
    );
    assert_eq!(
        unknown_stream(&StreamSelection::all(), &bases, &probe.tracks),
        None
    );
}

#[test]
fn refusals_are_told() {
    assert!(check(0, "open", String::new()).is_ok());
    assert!(matches!(
        check(-2, "open", "no such file".to_string()),
        Err(FfmpegError::Api { operation: "open", code: -2, .. })
    ));
    assert_eq!(av_error(5), -5);
    assert!(check_packet_stream(1, 1).is_ok());
    assert!(matches!(
        check_packet_stream(1, 2),
        Err(FfmpegError::StreamMismatch { decoder_stream: 1, packet_stream: 2 })
    ));
    assert!(check_subtitle_kind(Some(TrackKind::Subtitle)).is_ok());
    assert!(matches!(
        check_subtitle_kind(Some(TrackKind::Audio)),
        Err(FfmpegError::ExpectedSubtitleStream)
    ));
    assert_eq!(timestamp_value(i64::MIN), None);
    assert_eq!(timestamp_value(-1), Some(-1));
    assert_eq!(duration_from_av(0), None);
    assert_eq!(duration_from_av(5), Some(Duration::from_micros(5)));
    assert_eq!(seek_target(Duration::from_millis(7)), 7_000);
    let flags = PacketFlags::from_bits(5);
    assert!(flags.is_key() && !flags.is_corrupt() && flags.is_discard());
}

#[test]
fn sources_are_read_and_sought_in() {
    let mut position = AvioPosition::new();
    assert_eq!(position.read_packet(0, Some(5)), AvioRead::Invalid);
    assert_eq!(position.read_packet(4, None), AvioRead::Failed);
    assert_eq!(position.read_packet(4, Some(0)), AvioRead::EndOfFile);
    assert_eq!(position.read_packet(4, Some(9)), AvioRead::Copied(4));
    assert_eq!(position.read_packet(4, Some(3)), AvioRead::Copied(3));
    assert_eq!(position.offset, 7);
    let known = SourceLength::Known(100);
    assert_eq!(position.seek(-2, Whence::Current, known), AvioSeek::At(5));
    assert_eq!(position.seek(-10, Whence::End, known), AvioSeek::At(90));
    assert_eq!(position.seek(0, Whence::Size, known), AvioSeek::At(100));
    assert_eq!(position.offset, 90);
    assert_eq!(position.seek(-1, Whence::Start, known), AvioSeek::Invalid);
    assert_eq!(
        position.seek(0, Whence::End, SourceLength::Unknown),
        AvioSeek::NotSeekable
    );
    assert_eq!(
        position.seek(0, Whence::End, SourceLength::Failed),
        AvioSeek::Failed
    );
    assert_eq!(position.seek(0, Whence::Unknown, known), AvioSeek::Invalid);
    assert_eq!(position.offset, 90);
}

#[test]
fn frames_are_packed() {
    let plane = |bytes: Vec<u8>, stride: i32| Some(SourcePlane { bytes, stride });
    let frame = SourceFrame {
        width: 2,
        height: 2,
        format: SourcePixelFormat::Yuv420p,
        first: plane(vec![1, 2, 0, 3, 4, 0], 3),
        second: plane(vec![5], 1),
        third: plane(vec![6], 1),
    };
    let packed = frame.to_nv12().unwrap();
    assert_eq!(packed.luma, vec![1, 2, 3, 4]);
    assert_eq!(packed.chroma, vec![5, 6]);
    assert_eq!(
        frame.to_planar_frame().unwrap().format,
        PlanarPixelFormat::Nv12
    );
    let deep = SourceFrame {
        width: 2,
        height: 2,
        format: SourcePixelFormat::Yuv420p10Le,
        first: plane(vec![0xff, 0x03, 1, 0, 2, 0, 3, 0], 4),
        second: plane(vec![4, 0], 2),
        third: plane(vec![5, 0], 2),
    };
    let packed = deep.to_planar_frame().unwrap();
    assert_eq!(packed.format, PlanarPixelFormat::P010);
    assert_eq!(packed.luma, vec![0xc0, 0xff, 0x40, 0, 0x80, 0, 0xc0, 0]);
    assert_eq!(packed.chroma, vec![0, 1, 0x40, 1]);
    assert!(deep.to_nv12().is_none());
    let missing = SourceFrame {
        third: None,
        ..frame
    };
    assert!(missing.to_nv12().is_none());
}

#[test]
fn hardware_decoders_are_set_up() {
    let way = |device_type: i32, with_device: bool, with_frames: bool, pixel_format: i32| {
        HardwareConfig {
            device_type,
            with_device,
            with_frames,
            pixel_format,
        }
    };
    let ways = [
        way(1, false, true, 10),
        way(2, true, false, 20),
        way(1, true, false, 30),
    ];
    assert_eq!(hardware_pixel_format(&ways, 1), Some(30));
    assert_eq!(hardware_pixel_format(&ways[..2], 1), Some(10));
    assert_eq!(hardware_pixel_format(&ways, 3), None);
    assert!(offers_format(&[1, 2], 2));
    assert!(!offers_format(&[1, 2], 3));
    assert_eq!(hardware_frame_size(0, 7), (1, 7));
    let after = |step: HardwareStep, code: i32, is_there: bool| {
        let message = "told".to_string();
        next_hardware_step(step, HardwareFormat::D3d11, "D3D11VA", code, message, is_there)
    };
    assert!(matches!(
        after(HardwareStep::FindFormat, 0, true),
        Ok(HardwareStep::CreateDevice)
    ));
    assert!(matches!(
        after(HardwareStep::ShareDevice, 0, true),
        Ok(HardwareStep::AllocFrames)
    ));
    let failure = after(HardwareStep::FindFormat, 0, false).unwrap_err();
    assert!(matches!(failure.error, FfmpegError::NullPointer("D3D11VA")));
    assert!(!failure.release_device && !failure.release_frames);
    let failure = after(HardwareStep::CreateDevice, -5, false).unwrap_err();
    assert!(matches!(
        failure.error,
        FfmpegError::Api { operation: "D3D11VA", code: -5, .. }
    ));
    let failure = after(HardwareStep::AllocFrames, 0, false).unwrap_err();
    assert!(failure.release_device && !failure.release_frames);
    assert!(matches!(
        failure.error,
        FfmpegError::NullPointer("av_hwframe_ctx_alloc")
    ));
    let failure = after(HardwareStep::InitFrames, -1, true).unwrap_err();
    assert!(!failure.release_device && !failure.release_frames);
    assert!(matches!(
        failure.error,
        FfmpegError::Api { operation: "av_hwframe_ctx_init", .. }
    ));
    assert_eq!(
        decode_backend(true, HardwareFormat::VideoToolbox),
        DecoderBackend::VideoToolbox
    );
    assert_eq!(DecoderConfig::default(), DecoderConfig::software());
    assert_eq!(DecoderConfig::d3d11va().backend, DecoderBackend::D3d11va);
}

#[test]
fn frames_tell_what_they_hold() {
    let frame = decoded_frame();
    assert_eq!((frame.width(), frame.height()), (2, 2));
    assert_eq!(frame.pixel_format().as_deref(), Some("yuv420p"));
    assert_eq!(frame.pts(), None);
    assert!(!frame.is_audio() && !frame.is_videotoolbox() && !frame.is_d3d11va());
    assert_eq!(frame.decode_backend(), DecoderBackend::Software);
    assert_eq!(frame.color_primaries(), ColorPrimaries::Bt709);
    assert_eq!(frame.transfer_function(), TransferFunction::Pq);
    assert_eq!(frame.color_range(), ColorRange::Full);
    assert_eq!(frame.matrix_coefficients(), MatrixCoefficients::Bt709);
    assert!(frame.to_nv12().is_none());
    assert!(frame.to_planar_frame().is_none());
    let held = Frame {
        hardware: HardwareFormat::D3d11,
        has_hw_frames_context: true,
        pts: 12,
        width: -1,
        ..frame
    };
    assert!(held.is_d3d11va());
    assert_eq!(held.width(), 0);
    assert_eq!(held.pts().unwrap().as_duration(), Some(Duration::from_millis(500)));
}

fn packet(stream_index: i32, pts: i64) -> Packet {
    Packet {
        stream_index,
        data: vec![1, 2, 3],
        flags: 1,
        pos: -1,
        pts,
        dts: i64::MIN,
        duration: 12,
        time_base: None,
    }
}

fn opened() -> Demuxer {
    let stream = |codec: Option<CodecDescriptor>| {
        Some(StreamDescriptor {
            time_base_num: 1,
            time_base_den: 24,
            codec,
        })
    };
    Demuxer::open(
        "file.mkv".to_string(),
        2_500_000,
        vec![
            stream(Some(codec(0, 0))),
            None,
            stream(Some(codec(3, 2))),
            stream(None),
        ],
    )
}

#[test]
fn demuxers_read_the_chosen_streams() {
    let mut demuxer = opened();
    assert_eq!(demuxer.probe().uri, "file.mkv");
    assert!(demuxer.selection().accepts(7));
    assert!(matches!(
        demuxer.set_stream_selection(StreamSelection::only(&[2, 5])),
        Err(FfmpegError::UnknownStream(5))
    ));
    assert!(demuxer.selection().accepts(0));
    assert!(demuxer
        .set_stream_selection(StreamSelection::only(&[2]))
        .is_ok());
    assert!(demuxer.has_stream(2) && !demuxer.has_stream(1));
    assert_eq!(
        demuxer.stream_time_base(2),
        Some(TimeBase { num: 1, den: 24 })
    );
    let read = |code: i32, packet: Packet| demuxer.read_packet(code, "told".to_string(), packet);
    assert!(matches!(
        read(AVERROR_EOF, packet(2, 0)),
        Ok(ReadStep::EndOfFile)
    ));
    assert!(matches!(
        read(-5, packet(2, 0)),
        Err(FfmpegError::Api { operation: "av_read_frame", code: -5, .. })
    ));
    assert!(matches!(read(0, packet(0, 0)), Ok(ReadStep::Again)));
    let Ok(ReadStep::Packet(given)) = read(0, packet(2, 48)) else {
        panic!("a packet of a chosen stream");
    };
    assert_eq!(given.pts().unwrap().as_duration(), Some(Duration::from_secs(2)));
    assert_eq!(given.dts(), None);
    assert_eq!(given.pos(), None);
    assert_eq!((given.size(), given.data()), (3, &[1u8, 2, 3][..]));
    assert!(given.is_key());
    assert_eq!(
        given.duration_seconds().map(|seconds| f64::from_bits(seconds.bits)),
        Some(0.5)
    );
}

fn codec_opened() -> CodecOutcome {
    CodecOutcome {
        has_codec: true,
        has_context: true,
        parameters_code: 0,
        hardware: None,
        open_code: 0,
        message: String::new(),
    }
}

fn format_opened() -> FormatOutcome {
    FormatOutcome {
        open_code: 0,
        has_context: true,
        info_code: 0,
        message: String::new(),
        duration: 2_500_000,
        streams: vec![None],
    }
}

#[test]
fn files_are_opened() {
    let demuxer = Demuxer::open_uri("a.mkv".to_string(), format_opened()).unwrap();
    assert_eq!(demuxer.probe().uri, "a.mkv");
    assert!(demuxer.selection().accepts(3));
    let probe = probe_uri("a.mkv".to_string(), format_opened()).unwrap();
    assert_eq!(probe.duration, Some(Duration::from_millis(2500)));
    assert!(matches!(
        Demuxer::open_uri("a\0.mkv".to_string(), format_opened()),
        Err(FfmpegError::InteriorNul)
    ));
    let open = |outcome: FormatOutcome| Demuxer::open_uri("a".to_string(), outcome);
    assert!(matches!(
        open(FormatOutcome { open_code: -2, has_context: false, ..format_opened() }),
        Err(FfmpegError::Api { operation: "avformat_open_input", code: -2, .. })
    ));
    assert!(matches!(
        open(FormatOutcome { has_context: false, info_code: -1, ..format_opened() }),
        Err(FfmpegError::NullPointer("avformat_open_input"))
    ));
    assert!(matches!(
        open(FormatOutcome { info_code: -1, ..format_opened() }),
        Err(FfmpegError::Api { operation: "avformat_find_stream_info", code: -1, .. })
    ));
    let source = |has_buffer: bool, has_reader: bool, has_format: bool, open_code: i32| {
        let outcome = SourceOutcome {
            has_buffer,
            has_reader,
            has_format,
            format: FormatOutcome { open_code, ..format_opened() },
        };
        Demuxer::open_source("a".to_string(), outcome)
    };
    assert!(source(true, true, true, 0).is_ok());
    assert!(matches!(
        source(false, false, true, 0),
        Err(FfmpegError::NullPointer("av_malloc(avio buffer)"))
    ));
    assert!(matches!(
        source(true, false, true, 0),
        Err(FfmpegError::NullPointer("avio_alloc_context"))
    ));
    assert!(matches!(
        source(true, true, false, 0),
        Err(FfmpegError::NullPointer("avformat_alloc_context"))
    ));
    assert!(matches!(
        source(true, true, true, -1),
        Err(FfmpegError::Api { operation: "avformat_open_input(custom_io)", .. })
    ));
    assert!(demuxer.seek(0, 0, String::new()).is_ok());
    assert!(matches!(
        demuxer.seek(-1, -2, String::new()),
        Err(FfmpegError::Api { operation: "av_seek_frame", code: -1, .. })
    ));
    assert!(matches!(
        demuxer.seek(0, -2, String::new()),
        Err(FfmpegError::Api { operation: "avformat_flush", code: -2, .. })
    ));
}

#[test]
fn decoders_are_opened_step_by_step() {
    let demuxer = opened();
    let open = |outcome: CodecOutcome| demuxer.open_decoder(0, outcome);
    assert_eq!(open(codec_opened()).unwrap().stream_index(), 0);
    assert!(matches!(
        open(CodecOutcome { has_codec: false, has_context: false, ..codec_opened() }),
        Err(FfmpegError::NullPointer("avcodec_find_decoder"))
    ));
    assert!(matches!(
        open(CodecOutcome { has_context: false, ..codec_opened() }),
        Err(FfmpegError::NullPointer("avcodec_alloc_context3"))
    ));
    assert!(matches!(
        open(CodecOutcome { parameters_code: -1, open_code: -2, ..codec_opened() }),
        Err(FfmpegError::Api { operation: "avcodec_parameters_to_context", code: -1, .. })
    ));
    assert!(matches!(
        open(CodecOutcome { open_code: -2, ..codec_opened() }),
        Err(FfmpegError::Api { operation: "avcodec_open2", code: -2, .. })
    ));
    let without = || CodecOutcome {
        hardware: Some(FfmpegError::NullPointer("DXVA2")),
        ..codec_opened()
    };
    assert!(open(without()).is_ok());
    let video = demuxer.codec_parameters(0).unwrap();
    assert!(matches!(
        Decoder::open_with_config(&video, DecoderConfig::dxva2(), without()),
        Err(FfmpegError::NullPointer("DXVA2"))
    ));
    assert!(matches!(
        demuxer.open_decoder(1, codec_opened()),
        Err(FfmpegError::UnknownStream(1))
    ));
    let subtitles = |outcome: CodecOutcome| demuxer.open_subtitle_decoder(2, outcome);
    assert_eq!(subtitles(codec_opened()).unwrap().stream_index(), 2);
    assert!(matches!(
        subtitles(CodecOutcome { has_codec: false, ..codec_opened() }),
        Err(FfmpegError::NullPointer("avcodec_find_decoder(subtitle)"))
    ));
    assert!(matches!(
        subtitles(CodecOutcome { open_code: -1, ..codec_opened() }),
        Err(FfmpegError::Api { operation: "avcodec_open2(subtitle)", .. })
    ));
    assert!(matches!(
        demuxer.open_subtitle_decoder(0, codec_opened()),
        Err(FfmpegError::ExpectedSubtitleStream)
    ));
}

#[test]
fn decoders_take_their_streams() {
    let demuxer = opened();
    assert!(matches!(
        demuxer.codec_parameters(1),
        Err(FfmpegError::UnknownStream(1))
    ));
    assert!(matches!(
        demuxer.codec_parameters(3),
        Err(FfmpegError::NullPointer("AVStream.codecpar"))
    ));
    let video = demuxer.codec_parameters(0).unwrap();
    assert_eq!(video.kind(), Some(TrackKind::Video));
    assert_eq!(video.codec_name().as_deref(), Some("codec"));
    let decoder = Decoder::open(&video, codec_opened()).unwrap();
    assert_eq!(decoder.backend(), DecoderBackend::Software);
    let hardware =
        Decoder::open_with_config(&video, DecoderConfig::d3d11va(), codec_opened()).unwrap();
    assert_eq!(hardware.backend(), DecoderBackend::D3d11va);
    assert!(decoder.check_packet(&packet(0, 0)).is_ok());
    assert!(matches!(
        decoder.check_packet(&packet(2, 0)),
        Err(FfmpegError::StreamMismatch { decoder_stream: 0, packet_stream: 2 })
    ));
    let send = |packet: &Packet, code: i32| decoder.send_packet(packet, code, String::new());
    assert!(send(&packet(0, 0), 0).is_ok());
    assert!(matches!(
        send(&packet(2, 0), 0),
        Err(FfmpegError::StreamMismatch { decoder_stream: 0, packet_stream: 2 })
    ));
    assert!(matches!(
        send(&packet(0, 0), -9),
        Err(FfmpegError::Api { operation: "avcodec_send_packet", code: -9, .. })
    ));
    assert!(matches!(
        decoder.send_eof(-3, String::new()),
        Err(FfmpegError::Api { operation: "avcodec_send_packet_eof", code: -3, .. })
    ));
    let receive = |code: i32| decoder.receive_frame(code, -11, String::new(), decoded_frame());
    assert!(matches!(receive(-11), Ok(DecoderOutputFrame::NeedMoreInput)));
    assert!(matches!(receive(AVERROR_EOF), Ok(DecoderOutputFrame::EndOfStream)));
    let stamped = Frame {
        time_base: TimeBase { num: 1, den: 24 },
        ..decoded_frame()
    };
    assert_eq!(receive(0).unwrap(), DecoderOutputFrame::Frame(stamped));
    assert!(matches!(
        receive(-1),
        Err(FfmpegError::Api { operation: "avcodec_receive_frame", .. })
    ));
    assert!(matches!(
        SubtitleDecoder::open(&video, codec_opened()),
        Err(FfmpegError::ExpectedSubtitleStream)
    ));
    let parameters = demuxer.codec_parameters(2).unwrap();
    let subtitles = SubtitleDecoder::open(&parameters, codec_opened()).unwrap();
    assert!(subtitles.track().source.is_embedded());
    let given = SubtitlePacket {
        pts: i64::MIN,
        start_display_time: 0,
        end_display_time: 500,
        rects: vec![Some(SubtitleRect {
            text: Some("hello".to_string()),
            ..empty_rect(SubtitleRectKind::Text)
        })],
    };
    let stamped = Packet {
        time_base: Some(TimeBase { num: 1, den: 24 }),
        ..packet(2, 24)
    };
    assert!(subtitles.check_packet(&stamped).is_ok());
    let frame = subtitles
        .decode_packet(&stamped, 0, String::new(), Some(given))
        .unwrap()
        .unwrap();
    assert_eq!(frame.start, Some(Duration::from_secs(1)));
    assert_eq!(frame.end, Some(Duration::from_millis(1500)));
    assert_eq!(frame.text[0].text, "hello");
    let nothing = subtitles.decode_packet(&stamped, 0, String::new(), None);
    assert!(nothing.unwrap().is_none());
    assert!(matches!(
        subtitles.decode_packet(&packet(0, 0), 0, String::new(), None),
        Err(FfmpegError::StreamMismatch { decoder_stream: 2, packet_stream: 0 })
    ));
}

fn resampler_opened() -> ResamplerOutcome {
    ResamplerOutcome {
        has_layout: true,
        alloc_code: 0,
        has_context: true,
        init_code: 0,
        message: String::new(),
    }
}

#[test]
fn samples_are_converted() {
    let format = PcmFormat::default();
    let silent = decoded_frame();
    assert!(matches!(
        AudioResampler::new_from_frame(&silent, format, resampler_opened()),
        Err(FfmpegError::ExpectedAudioFrame)
    ));
    let audio = Frame {
        sample_rate: 44_100,
        channels: 2,
        samples: 1024,
        pts: 24,
        ..silent
    };
    let open = |outcome: ResamplerOutcome| AudioResampler::new_from_frame(&audio, format, outcome);
    let resampler = open(resampler_opened()).unwrap();
    match open(ResamplerOutcome { has_layout: false, ..resampler_opened() }) {
        Err(FfmpegError::Api { operation, code, message }) => {
            assert_eq!((operation, code), ("av_channel_layout_default", -1));
            assert_eq!(message, "invalid channel layout");
        }
        _ => panic!("a layout is needed"),
    }
    assert!(matches!(
        open(ResamplerOutcome { alloc_code: -1, ..resampler_opened() }),
        Err(FfmpegError::Api { operation: "swr_alloc_set_opts2", .. })
    ));
    assert!(matches!(
        open(ResamplerOutcome { has_context: false, ..resampler_opened() }),
        Err(FfmpegError::NullPointer("swr_alloc_set_opts2"))
    ));
    assert!(matches!(
        open(ResamplerOutcome { init_code: -1, ..resampler_opened() }),
        Err(FfmpegError::Api { operation: "swr_init", .. })
    ));
    assert_eq!(AudioResampler::layout_channels(format), 2);
    assert_eq!(resampler.output_format(), format);
    let request = resampler.request(&audio, 10).unwrap();
    assert_eq!(request.pending_samples, 1034);
    assert_eq!(request.input_rate, 44_100);
    assert_eq!(request.output_rate, format.sample_rate);
    assert_eq!(resampler.request(&audio, -1).unwrap().pending_samples, 1024);
    assert_eq!(AudioResampler::output_capacity(0), 1);
    assert_eq!(AudioResampler::output_capacity(i64::MAX), i32::MAX);
    assert_eq!(AudioResampler::output_capacity(77), 77);
    let samples = vec![Single { bits: 7 }; 10];
    let frame = resampler
        .convert(&audio, true, 2, String::new(), samples.clone())
        .unwrap();
    assert_eq!(frame.frames, 2);
    assert_eq!(frame.samples.len(), 2 * format.channels.max(1) as usize);
    assert_eq!(frame.pts, Some(Duration::from_secs(1)));
    assert!(matches!(
        resampler.convert(&audio, false, 2, String::new(), samples.clone()),
        Err(FfmpegError::NullPointer("AVFrame.extended_data"))
    ));
    assert!(matches!(
        resampler.convert(&audio, true, -4, String::new(), samples),
        Err(FfmpegError::Api { operation: "swr_convert", code: -4, .. })
    ));
}
