use erika::audio::AudioClockSnapshot;
use erika::ffmpeg::codes::DecoderBackend;
use erika::ffmpeg::demuxer::Demuxer;
use erika::ffmpeg::pcm::{PcmAudioFrame, PcmFormat};
use erika::ffmpeg::probe::{CodecDescriptor, MediaProbe, StreamDescriptor, VideoProbe};
use erika::ffmpeg::stamp::FfmpegError;
use erika::float_bits::Double;
use erika::media::{ColorPrimaries, TrackInfo, TrackKind, TransferFunction, VideoParams};
use erika::playback::session::external_subtitle_uri;
use erika::playback::{
    decoded_subtitle_start, external_subtitle_title, open_streams, plan_open,
    select_ready_subtitle, AudioStep,
    AudioSyncConfig, ClockCorrectionDirection, DisplaySyncConfig, DisplaySyncState,
    ExternalSubtitleSession, OpenPlan, OpenedMediaInfo, PacketRoute, PlaybackClock,
    PlaybackClockSource, PlaybackError, PlaybackRunState, PlaybackSession, PlaybackSessionConfig,
    PlaybackTimingConfig, Pull, QueuedVideoFrame, SubtitlePull, SubtitleQueueCandidate,
    SubtitleSelectionPlan, SubtitleStep, VideoDecodePreference, VideoFrameDecision,
    VideoFrameScheduler, VideoPlaybackEngine, VideoStep,
};
use erika::subtitle::{
    DecodedSubtitleFrame, SubtitleTextFormat, SubtitleTextSegment, SubtitleTrackConfig,
};
use erika::time::Duration;

fn double(value: f64) -> Double {
    Double {
        bits: value.to_bits(),
    }
}

fn secs(value: u64) -> Duration {
    Duration::from_secs(value)
}

fn millis(value: u64) -> Duration {
    Duration::from_millis(value)
}

#[test]
fn opened_media_info_keeps_probe_summary() {
    let mut video_track = TrackInfo::embedded(0, TrackKind::Video);
    video_track.codec = Some("hevc".to_string());
    let info = OpenedMediaInfo {
        uri: "file:///tmp/test.mp4".to_string(),
        duration: Some(Duration::from_secs(12)),
        tracks: vec![video_track],
        video_params: Some(VideoParams {
            width: 3840,
            height: 2160,
            primaries: ColorPrimaries::Bt2020,
            transfer: TransferFunction::Pq,
        }),
        selected_video_track: Some(0),
        selected_audio_track: Some(1),
        selected_subtitle_track: Some(2),
        subtitle_tracks: vec![SubtitleTrackConfig::embedded(2, 2)],
        video_decode_backend: Some(DecoderBackend::Software),
        audio_output: Some(PcmFormat::default()),
    };

    assert_eq!(info.duration, Some(Duration::from_secs(12)));
    assert_eq!(info.tracks.len(), 1);
    assert_eq!(
        info.video_params.as_ref().map(|params| params.width),
        Some(3840)
    );
    assert_eq!(info.selected_video_track, Some(0));
    assert_eq!(info.selected_audio_track, Some(1));
    assert_eq!(info.selected_subtitle_track, Some(2));
    assert_eq!(info.subtitle_tracks.len(), 1);
    assert_eq!(info.video_decode_backend, Some(DecoderBackend::Software));
    assert_eq!(info.audio_output, Some(PcmFormat::default()));
    assert_eq!(info.track_selection().subtitle, Some(2));
}

#[test]
fn subtitle_queue_selects_ready_external_before_future_embedded() {
    let candidate = select_ready_subtitle(
        Some(Duration::from_secs(10)),
        &[(3, Duration::from_secs(1))],
        Duration::from_secs(2),
    )
    .unwrap();

    assert!(matches!(
        candidate,
        SubtitleQueueCandidate::External {
            index: 3,
            start
        } if start == Duration::from_secs(1)
    ));
}

#[test]
fn subtitle_queue_selects_earliest_ready_candidate() {
    let candidate = select_ready_subtitle(
        Some(Duration::from_secs(1)),
        &[(0, Duration::from_secs(2))],
        Duration::from_secs(3),
    )
    .unwrap();

    assert!(matches!(
        candidate,
        SubtitleQueueCandidate::Embedded { start } if start == Duration::from_secs(1)
    ));
}

#[test]
fn subtitle_queue_waits_when_no_candidate_is_ready() {
    assert!(select_ready_subtitle(
        Some(Duration::from_secs(5)),
        &[(0, Duration::from_secs(6))],
        Duration::from_secs(4),
    )
    .is_none());
}

#[test]
fn subtitle_queue_prefers_external_on_ties() {
    let candidate = select_ready_subtitle(Some(secs(1)), &[(5, secs(1)), (6, secs(1))], secs(3));
    assert_eq!(
        candidate,
        Some(SubtitleQueueCandidate::External {
            index: 5,
            start: secs(1)
        })
    );
    assert_eq!(candidate.unwrap().start(), secs(1));
}

#[test]
fn playback_clock_tracks_pause_seek_and_rate() {
    let t0 = secs(1000);
    let later = |delta: Duration| t0.saturating_add(delta);
    let mut clock = PlaybackClock::paused_at(Duration::from_secs(10));

    assert_eq!(clock.media_time_at(t0), Duration::from_secs(10));
    clock.play(t0);
    assert_eq!(
        clock.media_time_at(later(Duration::from_millis(250))),
        Duration::from_millis(10_250)
    );

    clock.pause(later(Duration::from_millis(500)));
    assert_eq!(
        clock.media_time_at(later(Duration::from_secs(10))),
        Duration::from_millis(10_500)
    );

    clock.seek(Duration::from_secs(2), later(Duration::from_secs(10)));
    clock.play(later(Duration::from_secs(10)));
    clock.set_rate(double(2.0), later(Duration::from_secs(11)));

    assert_eq!(
        clock.media_time_at(later(Duration::from_secs(12))),
        Duration::from_secs(5)
    );
}

#[test]
fn playback_clock_disciplines_toward_audio_master() {
    let t0 = secs(1000);
    let mut clock = PlaybackClock::running_at(Duration::from_secs(10), t0);
    let config = AudioSyncConfig {
        deadband: Duration::from_millis(5),
        max_correction_per_frame: Duration::from_millis(20),
        snap_threshold: Duration::from_millis(250),
        ..AudioSyncConfig::default()
    };

    let correction = clock.discipline_to(
        Duration::from_millis(10_100),
        t0.saturating_add(Duration::from_millis(50)),
        PlaybackClockSource::Audio,
        config,
    );

    assert_eq!(correction.source, PlaybackClockSource::Audio);
    assert_eq!(correction.direction, ClockCorrectionDirection::Forward);
    assert_eq!(correction.drift, Duration::from_millis(50));
    assert_eq!(correction.applied, Duration::from_millis(20));
    assert!(!correction.snapped);
    assert_eq!(clock.source(), PlaybackClockSource::Audio);
    assert_eq!(
        clock.media_time_at(t0.saturating_add(Duration::from_millis(50))),
        Duration::from_millis(10_070)
    );
}

#[test]
fn playback_clock_snaps_on_large_audio_drift() {
    let t0 = secs(1000);
    let mut clock = PlaybackClock::running_at(Duration::from_secs(10), t0);

    let correction = clock.discipline_to(
        Duration::from_secs(11),
        t0,
        PlaybackClockSource::Audio,
        AudioSyncConfig::default(),
    );

    assert_eq!(correction.direction, ClockCorrectionDirection::Forward);
    assert_eq!(correction.drift, Duration::from_secs(1));
    assert!(correction.snapped);
    assert_eq!(clock.media_time_at(t0), Duration::from_secs(11));
}

#[test]
fn clock_scales_as_floating_point_does() {
    for rate in [0.1f64, 0.75, 1.0, 1.1, 1.25, 3.3, 1e-9, 1e9] {
        for nanos in [1u64, 999, 16_666_667, 1_000_000_001, 123_456_789_012_345] {
            let mut clock = PlaybackClock::paused_at(Duration::zero());
            clock.set_rate(double(rate), Duration::zero());
            clock.play(Duration::zero());
            let expected = std::time::Duration::from_secs_f64(
                std::time::Duration::from_nanos(nanos).as_secs_f64() * rate,
            );
            assert_eq!(
                clock.media_time_at(Duration::from_nanos(nanos)).as_nanos(),
                expected.as_nanos(),
                "{nanos} at {rate}"
            );
        }
    }
}

#[test]
fn rates_that_make_no_sense_count_as_one() {
    for rate in [0.0f64, -1.0, f64::NAN, f64::INFINITY] {
        let mut clock = PlaybackClock::paused_at(Duration::zero());
        clock.set_rate(double(rate), Duration::zero());
        assert_eq!(clock.rate(), double(1.0));
    }
}

#[test]
fn video_frame_scheduler_waits_presents_and_drops() {
    let scheduler = VideoFrameScheduler::new(Duration::from_millis(4), Duration::from_millis(80));

    assert_eq!(
        scheduler.schedule(
            Some(Duration::from_millis(110)),
            Duration::from_millis(100),
            false
        ),
        VideoFrameDecision::Wait {
            early_by: Duration::from_millis(6)
        }
    );
    assert_eq!(
        scheduler.schedule(
            Some(Duration::from_millis(98)),
            Duration::from_millis(100),
            false
        ),
        VideoFrameDecision::Present {
            late_by: Some(Duration::from_millis(2))
        }
    );
    assert_eq!(
        scheduler.schedule(
            Some(Duration::from_millis(10)),
            Duration::from_millis(100),
            false
        ),
        VideoFrameDecision::Drop {
            late_by: Duration::from_millis(90)
        }
    );
}

#[test]
fn video_frame_scheduler_always_presents_first_frame() {
    let scheduler = VideoFrameScheduler::new(Duration::zero(), Duration::from_millis(1));

    assert_eq!(
        scheduler.schedule(
            Some(Duration::from_millis(10)),
            Duration::from_millis(100),
            true
        ),
        VideoFrameDecision::Present {
            late_by: Some(Duration::from_millis(90))
        }
    );
}

#[test]
fn display_sync_quantizes_frames_to_vsyncs_and_carries_error() {
    let mut state = DisplaySyncState::default();
    let config = DisplaySyncConfig::for_refresh_rate_hz(double(60.0));
    let frame = Duration::from_nanos(
        std::time::Duration::from_secs_f64(1.0 / 24.0).as_nanos() as u64,
    );
    let first = state.schedule_frame(frame, config);
    let second = state.schedule_frame(frame, config);

    assert_eq!(first.vsyncs + second.vsyncs, 5);
    assert_ne!(first.vsyncs, second.vsyncs);
    assert!(first.residual_error_nanos.signum() != second.residual_error_nanos.signum());
}

#[test]
fn no_time_is_lost_between_refreshes() {
    let mut state = DisplaySyncState::default();
    let config = DisplaySyncConfig::for_refresh_rate_hz(double(60.0));
    let vsync = config.vsync_interval.as_nanos() as i128;
    for millis in [0u64, 3, 42, 41, 17, 1000, 0, 0, 5] {
        let frame = Duration::from_millis(millis);
        let target = frame.as_nanos() as i128 + state.residual_error_nanos();
        let shown = state.schedule_frame(frame, config);
        assert!(shown.vsyncs >= 1);
        assert_eq!(shown.residual_error_nanos, state.residual_error_nanos());
        assert_eq!(i128::from(shown.vsyncs) * vsync + state.residual_error_nanos(), target);
        assert_eq!(
            shown.scheduled_duration.as_nanos() as i128,
            i128::from(shown.vsyncs) * vsync
        );
    }
}

#[test]
fn refresh_intervals_are_those_of_floating_point() {
    for rate in [23.976f64, 24.0, 50.0, 59.94, 60.0, 120.0, 144.0] {
        assert_eq!(
            DisplaySyncConfig::for_refresh_rate_hz(double(rate))
                .vsync_interval
                .as_nanos(),
            std::time::Duration::from_secs_f64(1.0 / rate).as_nanos()
        );
    }
    assert_eq!(
        DisplaySyncConfig::for_refresh_rate_hz(double(f64::NAN)).vsync_interval,
        millis(16)
    );
}

// ---------------------------------------------------------------------------

fn probe() -> MediaProbe {
    MediaProbe {
        uri: "file:///movie.mkv".to_string(),
        duration: Some(secs(60)),
        tracks: vec![
            TrackInfo::embedded(0, TrackKind::Video),
            TrackInfo::embedded(1, TrackKind::Audio),
            TrackInfo::embedded(2, TrackKind::Audio),
            TrackInfo::embedded(3, TrackKind::Subtitle),
        ],
        video: vec![VideoProbe {
            track_id: 0,
            params: VideoParams {
                width: 640,
                height: 360,
                primaries: ColorPrimaries::Bt709,
                transfer: TransferFunction::Srgb,
            },
            codec: None,
            pixel_format: None,
            profile: None,
            level: None,
        }],
        audio: Vec::new(),
        subtitles: vec![SubtitleTrackConfig::embedded(3, 3)],
    }
}

fn session() -> PlaybackSession<QueuedVideoFrame<u32>> {
    let probe = probe();
    let plan = plan_open(&probe);
    assert_eq!(
        plan,
        OpenPlan {
            video: Some(0),
            audio: Some(1),
            subtitle: Some(3)
        }
    );
    PlaybackSession::open(
        probe,
        plan,
        true,
        DecoderBackend::Software,
        PcmFormat::default(),
    )
}

fn queued(frame: u32, pts: u64) -> QueuedVideoFrame<u32> {
    QueuedVideoFrame {
        frame,
        pts: Some(millis(pts)),
    }
}

fn subtitle(track_id: i64, start: u64, text: &str) -> DecodedSubtitleFrame {
    let mut frame = DecodedSubtitleFrame::new(track_id, Some(secs(start)), None);
    frame.push_text(SubtitleTextSegment::new(
        SubtitleTextFormat::PlainText,
        text.to_string(),
    ));
    frame
}

fn audio(pts: Option<Duration>) -> PcmAudioFrame {
    PcmAudioFrame {
        format: PcmFormat::default(),
        pts,
        frames: 0,
        samples: Vec::new(),
    }
}

fn external(id: i64) -> ExternalSubtitleSession {
    let config = SubtitleTrackConfig::external(id, "/tmp/some.en.srt".to_string());
    let file = MediaProbe {
        uri: "/tmp/some.en.srt".to_string(),
        duration: None,
        tracks: vec![TrackInfo::embedded(0, TrackKind::Subtitle)],
        video: Vec::new(),
        audio: Vec::new(),
        subtitles: vec![SubtitleTrackConfig::embedded(0, 0)],
    };
    let (session, stream) = ExternalSubtitleSession::open(config, &file).unwrap();
    assert_eq!(stream, 0);
    session
}

#[test]
fn opening_marks_the_first_track_of_each_kind() {
    let session = session();
    let marks: Vec<bool> = session.info.tracks.iter().map(|track| track.selected).collect();
    assert_eq!(marks, vec![true, true, false, true]);
    assert_eq!(session.info().video_params.as_ref().unwrap().width, 640);
    assert_eq!(
        session.info.video_decode_backend,
        Some(DecoderBackend::Software)
    );
    assert_eq!(session.track_selection().audio, Some(1));
}

#[test]
fn a_subtitle_decoder_that_fails_is_left_out() {
    let probe = probe();
    let plan = plan_open(&probe);
    let session: PlaybackSession<u32> = PlaybackSession::open(
        probe,
        plan,
        false,
        DecoderBackend::Software,
        PcmFormat::default(),
    );
    assert_eq!(session.info.selected_subtitle_track, None);
    assert!(!session.info.tracks[3].selected);
    assert_eq!(session.route_packet(3), PacketRoute::Nowhere);
}

#[test]
fn packets_go_to_the_decoder_of_their_stream() {
    let session = session();
    assert_eq!(session.route_packet(0), PacketRoute::Video);
    assert_eq!(session.route_packet(1), PacketRoute::Audio);
    assert_eq!(session.route_packet(3), PacketRoute::Subtitle);
    assert_eq!(session.route_packet(2), PacketRoute::Nowhere);
}

#[test]
fn queues_keep_old_video_and_new_audio() {
    let mut session = session();
    session.take_video_frames((0..10).map(|i| queued(i, 0)).collect());
    assert_eq!(session.video_frames.len(), 8);
    assert_eq!(session.video_frames.back().unwrap().frame, 7);
    session.take_audio_frames((0..20).map(|i| audio(Some(secs(i)))).collect());
    assert_eq!(session.audio_frames.len(), 16);
    assert_eq!(session.audio_frames.front().unwrap().pts, Some(secs(4)));
    for i in 0..40 {
        session.take_subtitle_frame(subtitle(3, i, "x"));
    }
    assert_eq!(session.subtitle_frames.len(), 32);
    assert_eq!(session.subtitle_frames.front().unwrap().start, Some(secs(8)));
    session.seek();
    assert!(session.video_frames.is_empty());
    assert!(session.audio_frames.is_empty());
    assert!(session.subtitle_frames.is_empty());
}

#[test]
fn audio_waits_while_enough_video_is_queued() {
    let mut session = session();
    assert!(matches!(session.next_audio_frame(), Pull::Pump));
    session.take_video_frames((0..8).map(|i| queued(i, 0)).collect());
    assert!(matches!(session.next_audio_frame(), Pull::Nothing));
    assert!(matches!(session.next_video_frame(), Pull::Frame(frame) if frame.frame == 0));
    assert!(matches!(session.next_audio_frame(), Pull::Pump));
    assert_eq!(session.finish_decoders(), (true, true));
    session.mark_eof();
    assert_eq!(session.finish_decoders(), (false, false));
    assert!(matches!(session.next_audio_frame(), Pull::Nothing));
}

#[test]
fn external_tracks_are_added_selected_and_removed() {
    let mut session = session();
    let plan = session.add_external_subtitle(external(1000)).unwrap();
    assert_eq!(plan, SubtitleSelectionPlan::CloseDecoder);
    let (clear, streams) = session.select_subtitle_track(Some(1000), plan, secs(5));
    assert_eq!(clear.unwrap().track_id, 3);
    assert_eq!(streams.unwrap(), vec![0, 1]);
    assert_eq!(
        session.info.subtitle_tracks[1].title.as_deref(),
        Some("some.en.srt")
    );
    assert!(session.info.tracks[4].is_external);
    assert!(session.info.tracks[4].selected);
    assert!(!session.info.tracks[3].selected);

    assert!(matches!(
        session.remove_subtitle_track(3, secs(5)),
        Err(PlaybackError::SubtitleTrackNotRemovable(3))
    ));
    assert!(matches!(session.remove_subtitle_track(77, secs(5)), Ok(None)));
    let clear = session.remove_subtitle_track(1000, secs(5)).unwrap().unwrap();
    assert_eq!((clear.track_id, clear.start), (1000, Some(secs(5))));
    assert!(clear.is_empty());
    assert_eq!(session.info.tracks.len(), 4);
    assert_eq!(session.info.subtitle_tracks.len(), 1);
    assert_eq!(session.info.selected_subtitle_track, None);
}

#[test]
fn external_session_gives_frames_its_own_track_id() {
    let mut file = external(1_000_007);
    assert!(file.needs_more(secs(2)));
    file.push(subtitle(0, 1, "External subtitle"));
    file.push(subtitle(0, 8, "later"));
    assert!(!file.needs_more(secs(2)));
    assert!(file.needs_more(secs(3)));
    assert_eq!(file.peek_start(), Some(secs(1)));
    let frame = file.pop_front().unwrap();
    assert_eq!(frame.track_id, 1_000_007);
    assert_eq!(frame.text[0].display_text(), "External subtitle");
    assert_eq!(decoded_subtitle_start(&frame), secs(1));
    file.mark_eof();
    assert!(!file.needs_more(secs(100)));
    file.seek();
    assert_eq!(file.peek_start(), None);
}

#[test]
fn external_files_without_subtitles_are_refused() {
    let config = SubtitleTrackConfig::external(9, "/tmp/x.srt".to_string());
    let mut file = probe();
    file.tracks.truncate(2);
    assert!(matches!(
        ExternalSubtitleSession::open(config, &file),
        Err(PlaybackError::NoSubtitleTrack)
    ));
    let embedded = SubtitleTrackConfig::embedded(4, 12);
    assert!(matches!(
        external_subtitle_uri(&embedded),
        Err(PlaybackError::SubtitleTrackNotRemovable(12))
    ));
    assert!(matches!(
        ExternalSubtitleSession::open(embedded, &probe()),
        Err(PlaybackError::SubtitleTrackNotRemovable(12))
    ));
}

#[test]
fn titles_are_the_last_part_of_an_address() {
    assert_eq!(
        external_subtitle_title("https://host/dir/movie.srt").as_deref(),
        Some("movie.srt")
    );
    assert_eq!(external_subtitle_title("plain.ass").as_deref(), Some("plain.ass"));
    assert_eq!(external_subtitle_title("dir/ "), None);
}

#[test]
fn subtitles_are_read_ahead_and_drawn_in_order() {
    let mut session = session();
    let plan = session.add_external_subtitle(external(1000)).unwrap();
    let _ = session.select_subtitle_track(Some(1000), plan, secs(0));
    assert!(matches!(
        session.next_subtitle_frame(secs(2)),
        SubtitlePull::PumpExternal(0)
    ));
    session.external_subtitles[0].push(subtitle(0, 2, "two"));
    session.external_subtitles[0].push(subtitle(0, 9, "nine"));
    assert!(
        matches!(session.next_subtitle_frame(secs(2)), SubtitlePull::Frame(frame) if frame.start == Some(secs(2)))
    );
    assert!(matches!(
        session.next_subtitle_frame(secs(2)),
        SubtitlePull::Nothing
    ));
}

#[test]
fn selecting_a_track_that_is_not_there_is_refused() {
    let mut session = session();
    assert!(matches!(
        session.plan_audio_selection(7),
        Err(PlaybackError::TrackNotFound {
            kind: TrackKind::Audio,
            track_id: 7
        })
    ));
    assert_eq!(session.plan_audio_selection(2).unwrap(), 2);
    assert_eq!(
        session.select_audio_track(Some((2, 2))).unwrap(),
        vec![0, 2, 3]
    );
    assert!(session.info.tracks[2].selected && !session.info.tracks[1].selected);
    assert_eq!(session.select_audio_track(None).unwrap(), vec![0, 3]);
    assert_eq!(session.info.audio_output, None);
    assert!(matches!(
        session.plan_subtitle_selection(Some(8)),
        Err(PlaybackError::TrackNotFound {
            kind: TrackKind::Subtitle,
            track_id: 8
        })
    ));
    assert_eq!(
        session.plan_subtitle_selection(Some(3)).unwrap(),
        SubtitleSelectionPlan::OpenDecoder(3)
    );
}

#[test]
fn decoders_are_opened_as_preferred() {
    assert_eq!(
        VideoDecodePreference::D3d11va.decoder_config().backend,
        DecoderBackend::D3d11va
    );
    let config = PlaybackSessionConfig::with_decoder(VideoDecodePreference::Software);
    assert_eq!(config.timing, PlaybackTimingConfig::default());
    let engine = VideoPlaybackEngine::open(session(), config);
    assert_eq!(engine.state(), PlaybackRunState::Paused);
}

// ---------------------------------------------------------------------------

#[test]
fn the_first_frame_starts_the_clock() {
    let mut engine = VideoPlaybackEngine::from_session(session());
    assert!(matches!(engine.tick(0, secs(1)), VideoStep::Done));
    engine.play(secs(1));
    assert_eq!(engine.state(), PlaybackRunState::Playing);
    assert!(matches!(engine.tick(0, secs(1)), VideoStep::Pump(0)));
    engine.session.take_video_frames(vec![queued(1, 500), queued(2, 540)]);
    match engine.tick(0, secs(9)) {
        VideoStep::Present(shown) => {
            assert_eq!(shown.frame, 1);
            assert_eq!(shown.media_time, millis(500));
            assert_eq!(shown.late_by, Some(Duration::zero()));
        }
        _ => panic!("first frame"),
    }
    assert!(matches!(engine.tick(0, secs(9)), VideoStep::Done));
    assert_eq!(engine.media_time(millis(9040)), millis(540));
    assert!(
        matches!(engine.tick(0, millis(9040)), VideoStep::Present(shown) if shown.frame == 2)
    );
}

#[test]
fn frames_before_a_sought_position_are_dropped() {
    let mut engine = VideoPlaybackEngine::from_session(session());
    engine.play(secs(1));
    engine.seek(secs(2), secs(1));
    engine
        .session
        .take_video_frames(vec![queued(1, 1900), queued(2, 1990), queued(3, 2030)]);
    assert!(matches!(engine.tick(0, secs(1)), VideoStep::Again(0)));
    assert!(matches!(engine.tick(0, secs(1)), VideoStep::Again(0)));
    assert!(matches!(engine.tick(0, secs(1)), VideoStep::Present(shown) if shown.frame == 3));
}

#[test]
fn late_frames_are_dropped_only_so_often() {
    let mut engine = VideoPlaybackEngine::from_session(session());
    engine.play(secs(1));
    engine
        .session
        .take_video_frames((0..8).map(|i| queued(i, i as u64 * 10)).collect());
    assert!(matches!(engine.tick(0, secs(1)), VideoStep::Present(_)));
    let now = secs(3);
    let mut drops = 0;
    let shown = loop {
        match engine.tick(drops, now) {
            VideoStep::Again(count) => drops = count,
            VideoStep::Present(shown) => break shown,
            _ => panic!("a frame is due"),
        }
    };
    assert_eq!(drops, 5);
    assert_eq!(shown.frame, 6);
    assert_eq!(shown.late_by, Some(millis(1940)));
}

#[test]
fn playback_ends_with_the_file() {
    let mut engine = VideoPlaybackEngine::from_session(session());
    engine.play(secs(1));
    engine.session.mark_eof();
    assert!(matches!(engine.tick(0, secs(2)), VideoStep::Done));
    assert_eq!(engine.state(), PlaybackRunState::Ended);
    assert_eq!(engine.media_time(secs(100)), secs(60));
    engine.play(secs(3));
    assert_eq!(engine.state(), PlaybackRunState::Ended);
    engine.stop(secs(4));
    assert_eq!(engine.state(), PlaybackRunState::Stopped);
    assert_eq!(engine.media_time(secs(5)), Duration::zero());
}

#[test]
fn audio_is_handed_on_a_little_ahead() {
    let mut engine = VideoPlaybackEngine::from_session(session());
    assert!(matches!(engine.tick_audio(secs(1)), AudioStep::Done));
    engine.play(secs(1));
    engine.session.take_video_frames(vec![queued(1, 0)]);
    assert!(matches!(engine.tick(0, secs(1)), VideoStep::Present(_)));
    assert!(matches!(engine.tick_audio(secs(1)), AudioStep::Pump));
    engine
        .session
        .take_audio_frames(vec![audio(Some(millis(120))), audio(Some(millis(121)))]);
    assert!(
        matches!(engine.tick_audio(secs(1)), AudioStep::Play(play) if play.late_by.is_none() && play.pts == Some(millis(120)))
    );
    assert!(matches!(engine.tick_audio(secs(1)), AudioStep::Done));
    assert!(
        matches!(engine.tick_audio(secs(2)), AudioStep::Play(play) if play.late_by == Some(millis(879)))
    );
}

#[test]
fn subtitles_are_shown_when_due() {
    let mut engine = VideoPlaybackEngine::from_session(session());
    engine.play(secs(1));
    engine.session.take_video_frames(vec![queued(1, 0)]);
    assert!(matches!(engine.tick(0, secs(1)), VideoStep::Present(_)));
    engine.session.take_subtitle_frame(subtitle(3, 2, "due"));
    assert!(matches!(engine.tick_subtitle(secs(2)), SubtitleStep::Done));
    assert!(
        matches!(engine.tick_subtitle(secs(4)), SubtitleStep::Show(show) if show.late_by == Some(secs(1)))
    );
    assert!(matches!(engine.tick_subtitle(secs(4)), SubtitleStep::Done));
}

#[test]
fn the_clock_follows_what_is_heard() {
    let mut engine = VideoPlaybackEngine::from_session(session());
    let snapshot = AudioClockSnapshot {
        media_time: Some(millis(100)),
        queued_duration: None,
        queued_frames: 0,
        read_frames: 1,
        written_frames: 1,
        underflow_frames: 0,
    };
    assert!(engine.sync_to_audio_clock(snapshot, secs(1)).is_none());
    engine.play(secs(1));
    engine.session.take_video_frames(vec![queued(1, 0)]);
    assert!(matches!(engine.tick(0, secs(1)), VideoStep::Present(_)));
    let correction = engine.sync_to_audio_clock(snapshot, secs(1)).unwrap();
    assert_eq!(correction.drift, millis(100));
    assert_eq!(correction.applied, millis(5));
    assert_eq!(engine.media_time(secs(1)), millis(5));
    assert_eq!(engine.clock_snapshot(secs(1)).source, PlaybackClockSource::Audio);
    engine.set_playback_rate(double(2.0), secs(1));
    assert_eq!(engine.media_time(secs(2)), millis(2005));
    engine.pause(secs(2));
    assert_eq!(engine.media_time(secs(9)), millis(2005));
}

#[test]
fn removing_a_track_clears_what_is_pending() {
    let mut engine = VideoPlaybackEngine::from_session(session());
    let plan = engine.add_external_subtitle(external(1000)).unwrap();
    let (clear, streams) = engine.select_added_subtitle(1000, plan, secs(1));
    assert!(streams.is_ok());
    assert_eq!(clear.unwrap().pts, Some(secs(1)));
    let removed = engine.remove_subtitle_track(1000, secs(0)).unwrap().unwrap();
    assert_eq!(removed.frame.track_id, 1000);
    assert_eq!(removed.media_time, Duration::zero());
    assert!(engine.remove_subtitle_track(1000, secs(0)).unwrap().is_none());
    assert_eq!(engine.track_selection().subtitle, None);
    assert_eq!(engine.info().tracks.len(), 4);
}

fn demuxer_of(media_types: &[Option<i32>]) -> Demuxer {
    let streams = media_types
        .iter()
        .enumerate()
        .map(|(at, media_type)| {
            Some(StreamDescriptor {
                time_base_num: 1,
                time_base_den: 24,
                codec: media_type.map(|media_type| CodecDescriptor {
                    media_type,
                    stream_index: at as i32,
                    codec: None,
                    title: None,
                    language: None,
                    width: 0,
                    height: 0,
                    primaries: 0,
                    transfer: 0,
                    level: 0,
                    pixel_format: None,
                    profile: None,
                    sample_rate: 0,
                    channels: 0,
                    sample_format: None,
                }),
            })
        })
        .collect();
    Demuxer::open("file.mkv".to_string(), 0, streams)
}

fn chosen(demuxer: &Demuxer) -> Vec<i32> {
    (0..5).filter(|stream| demuxer.selection().accepts(*stream)).collect()
}

#[test]
fn streams_are_opened() {
    let types = [Some(3), Some(1), Some(0), None, Some(1)];
    let mut demuxer = demuxer_of(&types);
    let plan = plan_open(demuxer.probe());
    assert_eq!(plan.video, Some(2));
    assert_eq!(plan.audio, Some(1));
    assert_eq!(plan.subtitle, Some(0));
    assert!(open_streams(&mut demuxer, plan, Ok(()), Ok(()), true).unwrap());
    assert_eq!(chosen(&demuxer), vec![0, 1, 2]);

    let mut demuxer = demuxer_of(&types);
    assert!(!open_streams(&mut demuxer, plan, Ok(()), Ok(()), false).unwrap());
    assert_eq!(chosen(&demuxer), vec![1, 2]);

    let mut demuxer = demuxer_of(&types);
    let unknown = Err(FfmpegError::NullPointer("decoder"));
    let refused = open_streams(&mut demuxer, plan, Ok(()), unknown, true);
    assert!(matches!(
        refused,
        Err(PlaybackError::Ffmpeg(FfmpegError::NullPointer("decoder")))
    ));
    assert_eq!(chosen(&demuxer), vec![0, 1, 2, 3, 4]);

    let bare = OpenPlan {
        video: Some(3),
        audio: Some(9),
        subtitle: None,
    };
    assert!(matches!(
        open_streams(&mut demuxer, bare, Ok(()), Ok(()), false),
        Err(PlaybackError::Ffmpeg(FfmpegError::NullPointer("AVStream.codecpar")))
    ));
    let missing = OpenPlan { video: None, ..bare };
    assert!(matches!(
        open_streams(&mut demuxer, missing, Ok(()), Ok(()), false),
        Err(PlaybackError::Ffmpeg(FfmpegError::UnknownStream(9)))
    ));

    let wrong = OpenPlan {
        video: None,
        audio: None,
        subtitle: Some(1),
    };
    assert!(!open_streams(&mut demuxer, wrong, Ok(()), Ok(()), true).unwrap());
    assert_eq!(chosen(&demuxer), vec![0, 1, 2, 3, 4]);
}
