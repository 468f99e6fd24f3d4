use meshrmm_agent::bitrate::{
    bitrate_duration_bytes, AdaptiveBitrate, BITRATE_DECREASE_INTERVAL_US,
    BITRATE_INCREASE_INTERVAL_US,
};
use meshrmm_agent::event::EncodedAccessUnit;
use meshrmm_agent::model::{
    ActiveFormat, DesktopSession, Display, DisplayId, StartedDesktop, VideoCodec, VideoPixelFormat,
};
use meshrmm_agent::profile::{
    active_profile, profile_candidates, remote_screen_codec, remote_screen_pixel_format,
    video_format, ChromaMode, Codec, PixelFormat, Quality, PlatformScreenStreamer, VideoProfile,
};
use meshrmm_agent::failure::Failure;
use meshrmm_agent::sender::{
    end_failure, route_message, session_end, Candidate, CursorReport, MessageRoute, PeerState,
    Restart, RestartResult, Sender, SenderAction, SenderFailure, SessionEnd, SessionState, Signal,
    SignalAction, Signaling, StartAttempts, ViewerMessage, DESKTOP_RETRY_MS,
};
use meshrmm_agent::video::{
    bootstrap, bootstrap_failure, stream_frame, Bootstrap, EncodedFrame, FrameFate,
    LatestFrameSlot, VideoPacer, KEYFRAME_RETRY_INTERVAL_US,
};

const FRAME_QUEUE: usize = 30;

const H264: VideoProfile = VideoProfile {
    codec: Codec::H264,
    chroma: ChromaMode::Yuv420,
};
const H265: VideoProfile = VideoProfile {
    codec: Codec::H265,
    chroma: ChromaMode::Yuv420,
};
const H264_444: VideoProfile = VideoProfile {
    codec: Codec::H264,
    chroma: ChromaMode::Yuv444,
};

#[test]
fn adaptive_bitrate_uses_aimd_without_oscillating() {
    let mut bitrate = AdaptiveBitrate::new(12_000_000, FRAME_QUEUE);
    let congested_bytes = bitrate.congested_bytes();

    assert_eq!(
        bitrate.observe(1_000, congested_bytes, 0, false),
        Some(9_000_000)
    );
    let congested_bytes = bitrate.congested_bytes();
    assert_eq!(
        bitrate.observe(2_000, congested_bytes, 0, false),
        None,
        "decreases are rate limited"
    );
    let congested_bytes = bitrate.congested_bytes();
    assert_eq!(
        bitrate.observe(
            1_000 + BITRATE_DECREASE_INTERVAL_US,
            congested_bytes,
            0,
            false,
        ),
        Some(6_750_000)
    );

    let healthy_start = 2_000_000;
    assert_eq!(bitrate.observe(healthy_start, 0, 0, false), None);
    assert_eq!(
        bitrate.observe(healthy_start + BITRATE_INCREASE_INTERVAL_US, 0, 0, false),
        Some(7_425_000)
    );
}

#[test]
fn adaptive_bitrate_never_drops_below_its_floor() {
    let mut bitrate = AdaptiveBitrate::new(4_000_000, FRAME_QUEUE);
    let mut now_us = 1;
    for _ in 0..20 {
        let _ = bitrate.observe(now_us, usize::MAX, usize::MAX, true);
        now_us += BITRATE_DECREASE_INTERVAL_US;
    }
    assert_eq!(bitrate.current, 1_000_000);
}

#[test]
fn quality_ceiling_change_takes_effect_immediately() {
    let mut bitrate = AdaptiveBitrate::new(12_000_000, FRAME_QUEUE);
    assert_eq!(bitrate.set_maximum(3_000_000), Some(3_000_000));
    assert_eq!(bitrate.current, 3_000_000);
    assert_eq!(bitrate.maximum, 3_000_000);

    assert_eq!(bitrate.set_maximum(6_000_000), Some(6_000_000));
    assert_eq!(bitrate.current, 6_000_000);
    assert_eq!(bitrate.set_maximum(6_000_000), None);
}

#[test]
fn transport_buffer_thresholds_represent_time_not_a_fixed_byte_count() {
    let low = AdaptiveBitrate::new(3_000_000, FRAME_QUEUE);
    let high = AdaptiveBitrate::new(12_000_000, FRAME_QUEUE);

    assert_eq!(low.drain_bytes(), 18_750);
    assert_eq!(low.congested_bytes(), 56_250);
    assert_eq!(high.drain_bytes(), 75_000);
    assert_eq!(high.congested_bytes(), 225_000);
}

#[test]
fn profile_negotiation_prefers_hevc_and_falls_back_to_420() {
    let profiles = [H264, H265, H264_444];

    assert_eq!(
        profile_candidates(&profiles, ChromaMode::Yuv444, &[]),
        vec![H264_444, H265, H264]
    );
}

#[test]
fn rejected_video_profiles_are_not_retried() {
    let h265_444 = VideoProfile {
        codec: Codec::H265,
        chroma: ChromaMode::Yuv444,
    };

    assert_eq!(
        profile_candidates(
            &[h265_444, H264_444, H264],
            ChromaMode::Yuv444,
            &[h265_444],
        ),
        vec![H264_444, H264]
    );
}

fn frame(frame_id: u64) -> EncodedFrame {
    EncodedFrame {
        stream_id: 1,
        frame_id,
        capture_timestamp_us: 1,
        encode_complete_timestamp_us: 2,
        send_timestamp_us: 0,
        keyframe: false,
        data: vec![frame_id as u8],
    }
}

fn keyframe(frame_id: u64) -> EncodedFrame {
    EncodedFrame {
        keyframe: true,
        ..frame(frame_id)
    }
}

#[test]
fn publishing_replaces_obsolete_frame() {
    let mut slot = LatestFrameSlot::new();
    slot.publish(frame(10));
    slot.publish(frame(11));
    assert_eq!(slot.next().unwrap().frame_id, 11);
    assert_eq!(slot.dropped(), 1);
}

#[test]
fn keyframe_is_retained_when_latest_frame_is_replaced() {
    let mut slot = LatestFrameSlot::new();
    slot.publish(keyframe(10));
    slot.publish(frame(11));
    assert_eq!(slot.keyframe().unwrap().frame_id, 10);
    assert_eq!(slot.next().unwrap().frame_id, 11);
}

#[test]
fn cleared_slot_has_neither_frame_nor_keyframe() {
    let mut slot = LatestFrameSlot::new();
    slot.publish(keyframe(10));
    slot.clear();
    assert!(slot.keyframe().is_none());
    assert!(slot.next().is_none());
}

#[test]
fn short_durations_still_buffer_a_minimum() {
    assert_eq!(bitrate_duration_bytes(0, 50), 16 * 1024);
    assert_eq!(bitrate_duration_bytes(3_000_001, 50), 18_751);
    assert_eq!(bitrate_duration_bytes(u32::MAX, 150), 80_530_637);
}

#[test]
fn frames_carry_their_codec_configuration_first() {
    let unit = EncodedAccessUnit {
        capture_timestamp_us: 3,
        encode_complete_timestamp_us: 4,
        keyframe: true,
        codec_config: Some(vec![1, 2]),
        data: vec![3],
    };
    let frame = stream_frame(unit, 7, 9);
    assert_eq!(frame.data, vec![1, 2, 3]);
    assert_eq!((frame.stream_id, frame.frame_id), (7, 9));
    assert_eq!(frame.send_timestamp_us, 0);
    assert!(frame.keyframe);
}

#[test]
fn lost_frames_wait_for_a_keyframe_that_is_asked_for_once() {
    let mut pacer = VideoPacer::new(12_000_000, FRAME_QUEUE);
    let first = pacer.frame_due(1, 1, 1, true, 12_000_000, 0, 0);
    assert_eq!(first.fate, FrameFate::Send);
    assert!(!first.request_keyframe);
    pacer.sent(1, 1, true, true);
    let next = pacer.frame_due(2, 1, 2, false, 12_000_000, 0, 0);
    assert_eq!(next.fate, FrameFate::Send);
    pacer.sent(1, 2, false, true);
    let gap = pacer.frame_due(3, 1, 4, false, 12_000_000, 0, 0);
    assert_eq!(gap.fate, FrameFate::Drop);
    assert!(gap.request_keyframe);
    let again = pacer.frame_due(4, 1, 5, false, 12_000_000, 0, 0);
    assert_eq!(again.fate, FrameFate::Drop);
    assert!(!again.request_keyframe);
    let later = pacer.frame_due(
        3 + KEYFRAME_RETRY_INTERVAL_US,
        1,
        6,
        false,
        12_000_000,
        0,
        0,
    );
    assert!(later.request_keyframe);
    let recovered = pacer.frame_due(
        4 + KEYFRAME_RETRY_INTERVAL_US,
        1,
        7,
        true,
        12_000_000,
        0,
        0,
    );
    assert_eq!(recovered.fate, FrameFate::Send);
}

#[test]
fn new_ceiling_is_told_with_the_next_frame() {
    let mut pacer = VideoPacer::new(12_000_000, FRAME_QUEUE);
    let arrival = pacer.frame_due(1, 1, 1, true, 3_000_000, 0, 0);
    assert_eq!(arrival.ceiling_bitrate, Some(3_000_000));
    let arrival = pacer.frame_due(2, 1, 2, true, 3_000_000, 0, 0);
    assert_eq!(arrival.ceiling_bitrate, None);
}

#[test]
fn formats_and_profiles_agree() {
    let active = ActiveFormat {
        width: 1920,
        height: 1080,
        frames_per_second: 60,
        bitrate_bits_per_second: 8_000_000,
        codec: VideoCodec::H265,
        pixel_format: VideoPixelFormat::Yuv444,
    };
    let format = video_format(&active);
    assert_eq!(format.codec, Codec::H265);
    assert_eq!(format.pixel_format, PixelFormat::Ayuv);
    assert_eq!(format.frames_per_second, 60);
    let profile = active_profile(&active);
    assert_eq!(
        profile,
        VideoProfile {
            codec: Codec::H265,
            chroma: ChromaMode::Yuv444
        }
    );
    assert_eq!(remote_screen_codec(profile.codec), active.codec);
    assert_eq!(
        remote_screen_pixel_format(profile.chroma),
        active.pixel_format
    );
}

#[test]
fn settings_decide_when_a_capture_restarts() {
    let quality = Quality {
        frames_per_second: 60,
        grayscale: false,
    };
    let mut settings = PlatformScreenStreamer::new(quality, 12_000_000, false);
    assert!(!settings.set_quality(quality));
    assert!(settings.set_quality(Quality {
        frames_per_second: 60,
        grayscale: true
    }));
    assert!(settings.set_cursor_capture(false));
    assert!(!settings.set_cursor_capture(false));
    settings.set_bitrate(0);
    assert_eq!(settings.config().bitrate_bits_per_second, 1);
    assert!(settings.config().grayscale);
    assert_eq!(settings.set_adaptive_bitrate(0), Some(1));
    settings.set_codec(H265.codec);
    settings.set_chroma(H265.chroma);
    assert_eq!(settings.set_adaptive_bitrate(4_000_000), None);
    assert!(settings.set_display_border(true, true));
    assert!(!settings.set_display_border(true, false));

    let mut helped = PlatformScreenStreamer::new(quality, 12_000_000, true);
    assert!(!helped.set_cursor_capture(false));
    assert!(!helped.set_display_border(true, true));
}

fn sender() -> Sender {
    Sender::new(started(&[1, 2], VideoCodec::H264), 1_000).0
}

fn display(id: u32) -> Display {
    Display {
        session: DesktopSession::Console,
        id: DisplayId(id),
        name: format!("Display {id}"),
        x: 0,
        y: 0,
        width: 1920,
        height: 1080,
        primary: id == 1,
    }
}

/// A capture that has started on the first of some displays.
fn started(ids: &[u32], codec: VideoCodec) -> StartedDesktop {
    StartedDesktop {
        format: ActiveFormat {
            width: 1920,
            height: 1080,
            frames_per_second: 60,
            bitrate_bits_per_second: 12_000_000,
            codec,
            pixel_format: VideoPixelFormat::Yuv420,
        },
        displays: ids.iter().map(|id| display(*id)).collect(),
        active_display: display(ids[0]),
    }
}

#[test]
fn viewer_is_told_what_a_session_starts_with() {
    let (sender, configuration) = Sender::new(started(&[2, 1], VideoCodec::H265), 1_000);
    assert_eq!(configuration.stream_id, 1);
    assert_eq!(configuration.active_display, DisplayId(2));
    assert_eq!(configuration.displays[1].name, "Display 1");
    assert_eq!(configuration.format.codec, Codec::H265);
    assert_eq!(configuration.format.frames_per_second, 60);
    assert_eq!(sender.displays, vec![DisplayId(2), DisplayId(1)]);
    assert_eq!(sender.active_profile, H265);
    assert_eq!(sender.quality_ceiling, 12_000_000);
}

fn restart_of(action: SenderAction) -> Restart {
    match action {
        SenderAction::Restart(restart) => restart,
        SenderAction::ApplyQualityAndRestart(_, restart) => restart,
        other => panic!("expected a restart, got {other:?}"),
    }
}

#[test]
fn capabilities_keep_a_profile_that_would_be_tried_first() {
    let mut sender = sender();
    let kept = sender.handle(
        ViewerMessage::Capabilities {
            profiles: vec![H264, H264_444],
            bitrate: 5_000_000,
            chroma: ChromaMode::Yuv420,
        },
        2_000,
    );
    assert!(matches!(kept, SenderAction::ApplyQuality(5_000_000)));
    assert!(sender.capture_running);
    assert_eq!(sender.stream_id, 1);

    let restart = restart_of(sender.handle(ViewerMessage::SetChroma(ChromaMode::Yuv444), 2_000));
    assert_eq!(restart.candidates, vec![H264_444, H264]);
    assert_eq!(restart.stream_id, 2);
    assert!(restart.required && restart.stop && restart.clear);
    assert!(!sender.capture_running);
    assert!(matches!(
        sender.restarted(&restart, None, 2_000),
        RestartResult::Fail
    ));
}

#[test]
fn only_the_active_profile_can_be_rejected() {
    let mut sender = sender();
    sender.viewer_profiles = vec![H264, H265];
    assert!(matches!(
        sender.handle(ViewerMessage::ProfileRejected(H265), 2_000),
        SenderAction::Nothing
    ));
    let restart = restart_of(sender.handle(ViewerMessage::ProfileRejected(H264), 2_000));
    assert_eq!(restart.candidates, vec![H265]);
    match sender.restarted(&restart, Some(started(&[1], VideoCodec::H265)), 2_000) {
        RestartResult::Announce(configuration) => {
            assert_eq!(configuration.stream_id, 2);
            assert_eq!(configuration.active_display, DisplayId(1));
            assert_eq!(configuration.displays.len(), 1);
            assert_eq!(configuration.format.codec, Codec::H265);
        }
        other => panic!("unexpected {other:?}"),
    }
    assert!(sender.capture_running);
    assert_eq!(sender.active_profile, H265);
    assert_eq!(sender.unavailable_since_ms, None);
}

#[test]
fn display_switch_waits_for_an_interactive_desktop() {
    let mut sender = sender();
    assert!(matches!(
        sender.handle(ViewerMessage::SelectDisplay(DisplayId(1)), 2_000),
        SenderAction::Nothing
    ));
    assert!(matches!(
        sender.handle(ViewerMessage::SelectDisplay(DisplayId(9)), 2_000),
        SenderAction::Nothing
    ));
    let restart = restart_of(sender.handle(ViewerMessage::SelectDisplay(DisplayId(2)), 2_000));
    assert_eq!(restart.display, DisplayId(2));
    assert!(!restart.required);
    assert!(matches!(
        sender.restarted(&restart, None, 2_000),
        RestartResult::Wait
    ));
    assert_eq!(sender.active_display, DisplayId(2));
    assert!(sender.look(false, 2_000 + DESKTOP_RETRY_MS - 1).is_none());
    let retry = sender.look(false, 2_000 + DESKTOP_RETRY_MS).unwrap();
    assert_eq!(retry.display, DisplayId(2));
    assert_eq!(retry.stream_id, restart.stream_id);
    assert!(!retry.stop && !retry.clear);
}

#[test]
fn ended_capture_is_replaced_on_a_new_stream() {
    let mut sender = sender();
    sender.stream_id = u32::MAX;
    assert!(sender.look(false, 3_000).is_none());
    let restart = sender.look(true, 3_000).unwrap();
    assert_eq!(restart.stream_id, 1);
    assert!(restart.clear && !restart.stop && !restart.required);
    assert_eq!(sender.unavailable_since_ms, Some(3_000));
}

#[test]
fn other_requests_of_the_viewer_are_passed_on() {
    let mut sender = sender();
    assert!(matches!(
        sender.handle(ViewerMessage::RequestKeyframe, 1),
        SenderAction::RequestKeyframe
    ));
    assert!(matches!(
        sender.handle(ViewerMessage::SetBitrate(7), 1),
        SenderAction::AdaptBitrate(7)
    ));
    assert!(matches!(
        sender.handle(ViewerMessage::SetQuality { bitrate: 9 }, 1),
        SenderAction::ApplyQuality(9)
    ));
    assert_eq!(sender.quality_ceiling, 9);
    assert!(matches!(
        sender.handle(ViewerMessage::Clipboard, 1),
        SenderAction::ForwardClipboard
    ));
    assert!(matches!(
        sender.handle(ViewerMessage::Stop, 1),
        SenderAction::Finish
    ));
    assert!(matches!(
        sender.handle(ViewerMessage::ChannelClosed, 1),
        SenderAction::ChannelClosed
    ));
    assert_eq!(
        route_message(&ViewerMessage::RequestKeyframe),
        MessageRoute::SessionDecoderReady
    );
    assert_eq!(route_message(&ViewerMessage::Input), MessageRoute::Input);
    assert_eq!(route_message(&ViewerMessage::Other), MessageRoute::Discard);
    assert_eq!(route_message(&ViewerMessage::Stop), MessageRoute::Session);
}

fn candidate(text: &str) -> Candidate {
    Candidate {
        candidate: text.to_string(),
        sdp_mid: Some("0".to_string()),
        sdp_mline_index: Some(0),
        username_fragment: None,
    }
}

#[test]
fn one_offer_is_sent_and_candidates_wait_for_the_answer() {
    let mut signaling = Signaling::new();
    assert!(matches!(
        signaling.step(Signal::Candidate(candidate("a"))),
        SignalAction::Nothing
    ));
    assert!(matches!(
        signaling.step(Signal::Candidate(candidate("b"))),
        SignalAction::Nothing
    ));
    assert!(matches!(signaling.step(Signal::Ready), SignalAction::SendOffer));
    assert!(matches!(signaling.step(Signal::Ready), SignalAction::Nothing));
    assert!(matches!(
        signaling.step(Signal::Answer("sdp".to_string())),
        SignalAction::AcceptAnswer(answer, held)
            if answer == "sdp" && held == vec![candidate("a"), candidate("b")]
    ));
    assert!(matches!(
        signaling.step(Signal::Candidate(candidate("c"))),
        SignalAction::AddCandidate(added) if added == candidate("c")
    ));
    assert!(matches!(
        signaling.step(Signal::Answer("again".to_string())),
        SignalAction::AcceptAnswer(answer, held) if answer == "again" && held.is_empty()
    ));
    assert!(matches!(
        signaling.step(Signal::Ping(vec![1, 2])),
        SignalAction::Pong(payload) if payload == [1, 2]
    ));
    assert!(matches!(signaling.step(Signal::Other), SignalAction::Nothing));
    assert!(matches!(signaling.step(Signal::PeerLeft), SignalAction::Finish));
    assert!(matches!(signaling.step(Signal::Closed), SignalAction::Finish));
    assert!(matches!(
        signaling.step(Signal::Error("why".to_string())),
        SignalAction::Fail(message) if message == "why"
    ));
    assert!(matches!(
        signaling.step(Signal::Lost),
        SignalAction::FailSignaling
    ));
}

#[test]
fn connection_decides_when_streaming_starts_and_ends() {
    let mut sender = sender();
    assert!(!sender.polls_clipboard(true));
    assert!(sender.peer_changed(PeerState::Connecting));
    assert!(sender.peer_changed(PeerState::Connected));
    assert_eq!(sender.state, SessionState::Streaming);
    assert!(sender.polls_clipboard(true));
    assert!(!sender.polls_clipboard(false));
    assert!(!sender.peer_changed(PeerState::Disconnected));
    assert!(!sender.peer_changed(PeerState::Failed));
    assert!(!sender.peer_changed(PeerState::Closed));
    sender.begin_close();
    assert_eq!(sender.state, SessionState::Closing);
    sender.close();
    assert_eq!(sender.state, SessionState::Idle);
    sender.begin_close();
    assert_eq!(sender.state, SessionState::Idle);
}

#[test]
fn cursor_is_told_when_it_is_news() {
    let mut report = CursorReport { sent: None };
    assert!(report.is_due(&vec![1], true, true));
    assert!(!report.is_due(&vec![1], false, true));
    assert!(!report.is_due(&vec![1], true, false));
    report.record(vec![1]);
    assert!(!report.is_due(&vec![1], true, true));
    assert!(report.is_due(&vec![2], true, true));
    report.forget();
    assert!(report.is_due(&vec![1], true, true));
}

#[test]
fn profiles_are_tried_in_order_and_failures_are_listed() {
    let mut attempts = StartAttempts::new(vec![H265, H264]);
    assert_eq!(attempts.profile(), Some(H265));
    attempts.failed("first".to_string());
    assert_eq!(attempts.profile(), Some(H264));
    attempts.failed("second".to_string());
    assert_eq!(attempts.profile(), None);
    assert_eq!(
        attempts.message(),
        "no mutually supported hardware video profile could start: first; second"
    );
    assert_eq!(
        StartAttempts::new(Vec::new()).message(),
        "no mutually supported hardware video profile could start: "
    );
}

#[test]
fn the_first_failure_of_a_session_counts() {
    assert_eq!(session_end(false, true, true), SessionEnd::Finished);
    assert_eq!(session_end(true, false, false), SessionEnd::Failed);
    assert_eq!(
        session_end(false, false, false),
        SessionEnd::CaptureNotStopped
    );
    assert_eq!(
        session_end(false, true, false),
        SessionEnd::ConnectionNotClosed
    );
}

#[test]
fn unexpected_ends_are_explained() {
    assert_eq!(
        SenderFailure::SignalingLost.message(),
        "signaling connection closed"
    );
    assert_eq!(
        SenderFailure::PeerEnded(PeerState::Failed).message(),
        "WebRTC connection ended in state Failed"
    );
    assert_eq!(
        SenderFailure::ChannelClosed.message(),
        "remote input/control channel closed unexpectedly"
    );
    assert!(end_failure(SessionEnd::Finished, Failure::new("x")).is_none());
    assert_eq!(
        end_failure(SessionEnd::CaptureNotStopped, Failure::new("x"))
            .unwrap()
            .describe(),
        "screen streamer cleanup failed: x"
    );
    assert_eq!(
        end_failure(SessionEnd::ConnectionNotClosed, Failure::new("x"))
            .unwrap()
            .describe(),
        "failed to close WebRTC peer: x"
    );
}

#[test]
fn streams_begin_with_a_keyframe() {
    assert_eq!(bootstrap(false, None, true), Bootstrap::Wait);
    assert_eq!(bootstrap(true, None, true), Bootstrap::Ask);
    assert_eq!(bootstrap(true, Some(9_999), false), Bootstrap::Wait);
    assert_eq!(bootstrap(true, Some(10_000), false), Bootstrap::Fail);
    assert_eq!(bootstrap(true, Some(10_000), true), Bootstrap::Begin);
    assert!(bootstrap_failure().contains("no bootstrap keyframe"));
}

#[test]
fn transports_are_given_time_to_drain() {
    let pacer = VideoPacer::new(12_000_000, FRAME_QUEUE);
    assert!(pacer.drains(75_001, 79));
    assert!(!pacer.drains(75_000, 79));
    assert!(!pacer.drains(75_001, 80));
    assert!(pacer.still_congested(225_000));
    assert!(!pacer.still_congested(224_999));
}

#[test]
fn frames_are_numbered_through_all_streams() {
    let quality = Quality {
        frames_per_second: 60,
        grayscale: false,
    };
    let mut streamer = PlatformScreenStreamer::new(quality, 1, false);
    let unit = || EncodedAccessUnit {
        capture_timestamp_us: 1,
        encode_complete_timestamp_us: 2,
        keyframe: false,
        codec_config: None,
        data: vec![1],
    };
    assert_eq!(streamer.frame(unit(), 1).frame_id, 1);
    assert_eq!(streamer.frame(unit(), 2).frame_id, 2);
    streamer.next_frame_id = u64::MAX;
    assert_eq!(streamer.frame(unit(), 2).frame_id, u64::MAX);
    assert_eq!(streamer.next_frame_id, 0);
}
