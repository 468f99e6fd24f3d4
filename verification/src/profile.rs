//! Video profiles: what a viewer decodes, what is tried, and what a stream is
//! configured to.
use crate::event::EncodedAccessUnit;
use crate::model::{ActiveFormat, StreamConfig, VideoCodec, VideoPixelFormat};
use crate::video;
use crate::video::{stream_frame, EncodedFrame};
use vstd::prelude::*;

verus! {

#[derive(Debug, Clone, Copy, PartialEq, Eq, Structural)]
pub enum Codec {
    H264,
    H265,
}

#[derive(Debug, Clone, Copy, PartialEq, Eq, Structural)]
pub enum ChromaMode {
    Yuv420,
    Yuv444,
}

#[derive(Debug, Clone, Copy, PartialEq, Eq, Structural)]
pub enum PixelFormat {
    Nv12,
    Ayuv,
}

#[derive(Debug, Clone, Copy, PartialEq, Eq, Structural)]
pub struct VideoProfile {
    pub codec: Codec,
    pub chroma: ChromaMode,
}

/// A stream's format, as viewers are told.
#[derive(Debug, Clone, Copy, PartialEq, Eq, Structural)]
pub struct VideoFormat {
    pub width: u32,
    pub height: u32,
    pub frames_per_second: u16,
    pub codec: Codec,
    pub pixel_format: PixelFormat,
    pub bitrate_bits_per_second: u32,
}

pub open spec fn codec_of(codec: VideoCodec) -> Codec {
    match codec {
        VideoCodec::H264 => Codec::H264,
        VideoCodec::H265 => Codec::H265,
    }
}

pub open spec fn pixel_format_of(format: VideoPixelFormat) -> PixelFormat {
    match format {
        VideoPixelFormat::Yuv420 => PixelFormat::Nv12,
        VideoPixelFormat::Yuv444 => PixelFormat::Ayuv,
    }
}

/// A capture's format as viewers know it; frame rates are told modulo 65536.
pub open spec fn format_of(active: ActiveFormat) -> VideoFormat {
    VideoFormat {
        width: active.width,
        height: active.height,
        frames_per_second: (active.frames_per_second % 65536) as u16,
        codec: codec_of(active.codec),
        pixel_format: pixel_format_of(active.pixel_format),
        bitrate_bits_per_second: active.bitrate_bits_per_second,
    }
}

pub fn video_format(active: &ActiveFormat) -> (format: VideoFormat)
    ensures
        format == format_of(*active),
{
    VideoFormat {
        width: active.width,
        height: active.height,
        frames_per_second: (active.frames_per_second % 65536) as u16,
        codec: match active.codec {
            VideoCodec::H264 => Codec::H264,
            VideoCodec::H265 => Codec::H265,
        },
        pixel_format: match active.pixel_format {
            VideoPixelFormat::Yuv420 => PixelFormat::Nv12,
            VideoPixelFormat::Yuv444 => PixelFormat::Ayuv,
        },
        bitrate_bits_per_second: active.bitrate_bits_per_second,
    }
}

/// The profile of a capture's format.
pub open spec fn profile_of(active: ActiveFormat) -> VideoProfile {
    VideoProfile {
        codec: codec_of(active.codec),
        chroma: match active.pixel_format {
            VideoPixelFormat::Yuv420 => ChromaMode::Yuv420,
            VideoPixelFormat::Yuv444 => ChromaMode::Yuv444,
        },
    }
}

pub fn active_profile(active: &ActiveFormat) -> (profile: VideoProfile)
    ensures
        profile == profile_of(*active),
{
    VideoProfile {
        codec: match active.codec {
            VideoCodec::H264 => Codec::H264,
            VideoCodec::H265 => Codec::H265,
        },
        chroma: match active.pixel_format {
            VideoPixelFormat::Yuv420 => ChromaMode::Yuv420,
            VideoPixelFormat::Yuv444 => ChromaMode::Yuv444,
        },
    }
}

pub open spec fn encoder_codec(codec: Codec) -> VideoCodec {
    match codec {
        Codec::H264 => VideoCodec::H264,
        Codec::H265 => VideoCodec::H265,
    }
}

pub open spec fn encoder_format(chroma: ChromaMode) -> VideoPixelFormat {
    match chroma {
        ChromaMode::Yuv420 => VideoPixelFormat::Yuv420,
        ChromaMode::Yuv444 => VideoPixelFormat::Yuv444,
    }
}

pub fn remote_screen_codec(codec: Codec) -> (result: VideoCodec)
    ensures
        result == encoder_codec(codec),
{
    match codec {
        Codec::H264 => VideoCodec::H264,
        Codec::H265 => VideoCodec::H265,
    }
}

pub fn remote_screen_pixel_format(chroma: ChromaMode) -> (result: VideoPixelFormat)
    ensures
        result == encoder_format(chroma),
{
    match chroma {
        ChromaMode::Yuv420 => VideoPixelFormat::Yuv420,
        ChromaMode::Yuv444 => VideoPixelFormat::Yuv444,
    }
}

/// A stream that is configured with a profile runs with that profile.
pub proof fn configured_profile_is_the_active_one(profile: VideoProfile, active: ActiveFormat)
    requires
        active.codec == encoder_codec(profile.codec),
        active.pixel_format == encoder_format(profile.chroma),
    ensures
        profile_of(active) == profile,
{
}

/// Whether a profile can be tried: the viewer decodes it and has not rejected
/// it.
pub open spec fn usable(
    profiles: Seq<VideoProfile>,
    rejected: Seq<VideoProfile>,
    profile: VideoProfile,
) -> bool {
    profiles.contains(profile) && !rejected.contains(profile)
}

/// A profile, if it can be tried.
pub open spec fn if_usable(
    profiles: Seq<VideoProfile>,
    rejected: Seq<VideoProfile>,
    codec: Codec,
    chroma: ChromaMode,
) -> Seq<VideoProfile> {
    let profile = VideoProfile { codec, chroma };
    if usable(profiles, rejected, profile) {
        seq![profile]
    } else {
        seq![]
    }
}

pub open spec fn with_chroma(
    profiles: Seq<VideoProfile>,
    rejected: Seq<VideoProfile>,
    chroma: ChromaMode,
) -> Seq<VideoProfile> {
    if_usable(profiles, rejected, Codec::H265, chroma) + if_usable(
        profiles,
        rejected,
        Codec::H264,
        chroma,
    )
}

/// The profiles to try, in order: the requested chroma before 4:2:0, and of
/// each HEVC before H.264.
pub open spec fn candidates(
    profiles: Seq<VideoProfile>,
    requested: ChromaMode,
    rejected: Seq<VideoProfile>,
) -> Seq<VideoProfile> {
    if requested == ChromaMode::Yuv420 {
        with_chroma(profiles, rejected, requested)
    } else {
        with_chroma(profiles, rejected, requested) + with_chroma(
            profiles,
            rejected,
            ChromaMode::Yuv420,
        )
    }
}

fn contains(profiles: &[VideoProfile], profile: VideoProfile) -> (found: bool)
    ensures
        found == profiles@.contains(profile),
{
    let mut next: usize = 0;
    while next < profiles.len()
        invariant
            next <= profiles@.len(),
            forall|i: int| 0 <= i < next ==> profiles@[i] != profile,
        decreases profiles@.len() - next,
    {
        if profiles[next] == profile {
            assert(profiles@[next as int] == profile);
            return true;
        }
        next += 1;
    }
    false
}

fn push_if_usable(
    found: &mut Vec<VideoProfile>,
    profiles: &[VideoProfile],
    rejected: &[VideoProfile],
    codec: Codec,
    chroma: ChromaMode,
)
    ensures
        final(found)@ == old(found)@ + if_usable(profiles@, rejected@, codec, chroma),
{
    let profile = VideoProfile { codec, chroma };
    if contains(profiles, profile) && !contains(rejected, profile) {
        found.push(profile);
    }
    assert(found@ =~= old(found)@ + if_usable(profiles@, rejected@, codec, chroma));
}

pub fn profile_candidates(
    profiles: &[VideoProfile],
    requested_chroma: ChromaMode,
    rejected: &[VideoProfile],
) -> (found: Vec<VideoProfile>)
    ensures
        found@ == candidates(profiles@, requested_chroma, rejected@),
{
    let mut found: Vec<VideoProfile> = Vec::new();
    push_if_usable(&mut found, profiles, rejected, Codec::H265, requested_chroma);
    push_if_usable(&mut found, profiles, rejected, Codec::H264, requested_chroma);
    if requested_chroma != ChromaMode::Yuv420 {
        push_if_usable(&mut found, profiles, rejected, Codec::H265, ChromaMode::Yuv420);
        push_if_usable(&mut found, profiles, rejected, Codec::H264, ChromaMode::Yuv420);
    }
    assert(found@ =~= candidates(profiles@, requested_chroma, rejected@));
    found
}

proof fn lemma_chroma(
    profiles: Seq<VideoProfile>,
    rejected: Seq<VideoProfile>,
    chroma: ChromaMode,
    profile: VideoProfile,
)
    ensures
        with_chroma(profiles, rejected, chroma).contains(profile) <==> usable(
            profiles,
            rejected,
            profile,
        ) && profile.chroma == chroma,
        with_chroma(profiles, rejected, chroma).no_duplicates(),
{
    let found = with_chroma(profiles, rejected, chroma);
    let first = if_usable(profiles, rejected, Codec::H265, chroma);
    if usable(profiles, rejected, profile) && profile.chroma == chroma {
        assert(profile == VideoProfile { codec: profile.codec, chroma });
        if profile.codec == Codec::H265 {
            assert(found[0] == profile);
        } else {
            assert(found[first.len() as int] == profile);
        }
    }
}

/// A joined list has what either part has.
proof fn lemma_joined(first: Seq<VideoProfile>, second: Seq<VideoProfile>, profile: VideoProfile)
    ensures
        (first + second).contains(profile) <==> first.contains(profile) || second.contains(profile),
{
    let all = first + second;
    if first.contains(profile) {
        let at = choose|at: int| 0 <= at < first.len() && first[at] == profile;
        assert(all[at] == profile);
    }
    if second.contains(profile) {
        let at = choose|at: int| 0 <= at < second.len() && second[at] == profile;
        assert(all[first.len() + at] == profile);
    }
    if all.contains(profile) {
        let at = choose|at: int| 0 <= at < all.len() && all[at] == profile;
        if at < first.len() {
            assert(first[at] == profile);
        } else {
            assert(second[at - first.len()] == profile);
        }
    }
}

/// Lists of different chroma have nothing in common.
proof fn lemma_once(
    profiles: Seq<VideoProfile>,
    rejected: Seq<VideoProfile>,
    first: ChromaMode,
    second: ChromaMode,
)
    requires
        first != second,
    ensures
        (with_chroma(profiles, rejected, first) + with_chroma(
            profiles,
            rejected,
            second,
        )).no_duplicates(),
{
    let before = with_chroma(profiles, rejected, first);
    let behind = with_chroma(profiles, rejected, second);
    let all = before + behind;
    assert forall|i: int, j: int| 0 <= i < all.len() && 0 <= j < all.len() && i
        != j implies all[i] != all[j] by {
        lemma_chroma(profiles, rejected, first, all[i]);
        lemma_chroma(profiles, rejected, second, all[i]);
        if i < before.len() {
            assert(before.contains(before[i]));
        } else {
            assert(behind.contains(behind[i - before.len()]));
        }
        if j < before.len() {
            assert(before.contains(before[j]));
        } else {
            assert(behind.contains(behind[j - before.len()]));
        }
    }
}

/// Every profile that is tried is one the viewer decodes and has not rejected,
/// and none is tried twice; every such profile of the requested chroma or of
/// 4:2:0 is tried.
pub proof fn candidates_are_exactly_the_usable_profiles(
    profiles: Seq<VideoProfile>,
    requested: ChromaMode,
    rejected: Seq<VideoProfile>,
    profile: VideoProfile,
)
    ensures
        candidates(profiles, requested, rejected).contains(profile) <==> usable(
            profiles,
            rejected,
            profile,
        ) && (profile.chroma == requested || profile.chroma == ChromaMode::Yuv420),
        candidates(profiles, requested, rejected).no_duplicates(),
{
    lemma_chroma(profiles, rejected, requested, profile);
    if requested != ChromaMode::Yuv420 {
        lemma_chroma(profiles, rejected, ChromaMode::Yuv420, profile);
        lemma_joined(
            with_chroma(profiles, rejected, requested),
            with_chroma(profiles, rejected, ChromaMode::Yuv420),
            profile,
        );
        lemma_once(profiles, rejected, requested, ChromaMode::Yuv420);
    }
}

/// How a preset changes a stream.
#[derive(Debug, Clone, Copy, PartialEq, Eq, Structural)]
pub struct Quality {
    pub frames_per_second: u32,
    pub grayscale: bool,
}

/// What the next start of a stream is configured to, and the number of its next
/// frame.
#[derive(Debug, Clone, Copy, PartialEq, Eq, Structural)]
pub struct PlatformScreenStreamer {
    pub quality: Quality,
    pub bitrate_bits_per_second: u32,
    pub codec: Codec,
    pub chroma: ChromaMode,
    pub capture_cursor: bool,
    /// Whether helpers capture, rather than this process.
    pub helpers: bool,
    pub border_enabled: bool,
    pub next_frame_id: u64,
}

impl PlatformScreenStreamer {
    /// The settings of a new session: the best codec everybody has, and the
    /// cursor in the picture.
    pub fn new(quality: Quality, bitrate_bits_per_second: u32, helpers: bool) -> (settings: Self)
        ensures
            settings == (PlatformScreenStreamer {
                quality,
                bitrate_bits_per_second,
                codec: Codec::H264,
                chroma: ChromaMode::Yuv420,
                capture_cursor: true,
                helpers,
                border_enabled: false,
                next_frame_id: 1,
            }),
    {
        PlatformScreenStreamer {
            quality,
            bitrate_bits_per_second,
            codec: Codec::H264,
            chroma: ChromaMode::Yuv420,
            capture_cursor: true,
            helpers,
            border_enabled: false,
            next_frame_id: 1,
        }
    }

    pub open spec fn config_of(self) -> StreamConfig {
        StreamConfig {
            frames_per_second: self.quality.frames_per_second,
            bitrate_bits_per_second: self.bitrate_bits_per_second,
            codec: encoder_codec(self.codec),
            pixel_format: encoder_format(self.chroma),
            capture_cursor: self.capture_cursor,
            grayscale: self.quality.grayscale,
        }
    }

    pub fn config(&self) -> (config: StreamConfig)
        ensures
            config == self.config_of(),
    {
        StreamConfig {
            frames_per_second: self.quality.frames_per_second,
            bitrate_bits_per_second: self.bitrate_bits_per_second,
            codec: remote_screen_codec(self.codec),
            pixel_format: remote_screen_pixel_format(self.chroma),
            capture_cursor: self.capture_cursor,
            grayscale: self.quality.grayscale,
        }
    }

    /// The bitrate of the next start, which is never zero.
    pub fn set_bitrate(&mut self, bits_per_second: u32)
        ensures
            *final(self) == (PlatformScreenStreamer {
                bitrate_bits_per_second: if bits_per_second == 0 {
                    1
                } else {
                    bits_per_second
                },
                ..*old(self)
            }),
    {
        self.bitrate_bits_per_second = if bits_per_second == 0 {
            1
        } else {
            bits_per_second
        };
    }

    /// Whether a preset changes what a running capture does, so that it has to
    /// restart.
    pub fn set_quality(&mut self, quality: Quality) -> (changed: bool)
        ensures
            changed == (old(self).quality != quality),
            *final(self) == (PlatformScreenStreamer { quality, ..*old(self) }),
    {
        let changed = self.quality.grayscale != quality.grayscale
            || self.quality.frames_per_second != quality.frames_per_second;
        self.quality = quality;
        changed
    }

    pub fn set_codec(&mut self, codec: Codec)
        ensures
            *final(self) == (PlatformScreenStreamer { codec, ..*old(self) }),
    {
        self.codec = codec;
    }

    pub fn set_chroma(&mut self, chroma: ChromaMode)
        ensures
            *final(self) == (PlatformScreenStreamer { chroma, ..*old(self) }),
    {
        self.chroma = chroma;
    }

    /// The frame that an access unit becomes on a stream. Frames are numbered
    /// through all streams of a session.
    pub fn frame(&mut self, unit: EncodedAccessUnit, stream_id: u32) -> (frame: EncodedFrame)
        ensures
            frame@ == video::frame_of(unit@, stream_id, old(self).next_frame_id),
            *final(self) == (PlatformScreenStreamer {
                next_frame_id: video::next_id(old(self).next_frame_id),
                ..*old(self)
            }),
    {
        let frame_id: u64 = self.next_frame_id;
        self.next_frame_id = frame_id.wrapping_add(1);
        stream_frame(unit, stream_id, frame_id)
    }

    /// The bitrate to set on a running encoder. HEVC encoders do not survive
    /// that, so theirs is left alone.
    pub fn set_adaptive_bitrate(&self, bits_per_second: u32) -> (bits: Option<u32>)
        ensures
            bits == (if self.codec == Codec::H265 {
                None
            } else if bits_per_second == 0 {
                Some(1u32)
            } else {
                Some(bits_per_second)
            }),
    {
        if self.codec == Codec::H265 {
            return None;
        }
        Some(
            if bits_per_second == 0 {
                1
            } else {
                bits_per_second
            },
        )
    }

    /// Whether showing or hiding the cursor needs a restart; helpers are told
    /// instead.
    pub fn set_cursor_capture(&mut self, enabled: bool) -> (restart: bool)
        ensures
            restart == (!old(self).helpers && old(self).capture_cursor != enabled),
            *final(self) == (PlatformScreenStreamer { capture_cursor: enabled, ..*old(self) }),
    {
        let changed = self.capture_cursor != enabled;
        self.capture_cursor = enabled;
        !self.helpers && changed
    }

    /// Whether this process shows a border now; helpers are told instead.
    pub fn set_display_border(&mut self, enabled: bool, capturing: bool) -> (shown: bool)
        ensures
            shown == (enabled && capturing && !old(self).helpers),
            *final(self) == (PlatformScreenStreamer { border_enabled: enabled, ..*old(self) }),
    {
        self.border_enabled = enabled;
        enabled && capturing && !self.helpers
    }
}

/// The frames of a session follow each other without a gap, whatever starts and
/// stops between them; so a gap means that one was lost.
pub proof fn frames_are_numbered_through(
    first: crate::event::AccessUnitView,
    second: crate::event::AccessUnitView,
    stream_id: u32,
    frame_id: u64,
)
    ensures
        ({
            let sent = video::frame_of(first, stream_id, frame_id);
            let next = video::frame_of(second, stream_id, video::next_id(frame_id));
            video::follows((sent.stream_id, sent.frame_id), next.stream_id, next.frame_id)
        }),
{
}

/// Profiles are tried from the best down: all of the chroma that the viewer asked
/// for before any of 4:2:0, and of one chroma HEVC before H.264.
pub proof fn better_profiles_are_tried_first(
    profiles: Seq<VideoProfile>,
    requested: ChromaMode,
    rejected: Seq<VideoProfile>,
    first: int,
    second: int,
)
    requires
        0 <= first < second < candidates(profiles, requested, rejected).len(),
    ensures
        ({
            let tried = candidates(profiles, requested, rejected);
            &&& tried[second].chroma == requested ==> tried[first].chroma == requested
            &&& tried[first].chroma == tried[second].chroma ==> tried[first].codec == Codec::H265
                && tried[second].codec == Codec::H264
            &&& tried[first].chroma == requested || tried[first].chroma == ChromaMode::Yuv420
            &&& tried[second].chroma == requested || tried[second].chroma == ChromaMode::Yuv420
        }),
{
}

/// A profile is started as itself: the encoder gets its codec and its chroma, no
/// two profiles are started alike, and what the viewer is told of the format is
/// what was started.
pub proof fn profiles_are_started_as_themselves(profile: VideoProfile, active: ActiveFormat)
    ensures
        encoder_codec(profile.codec) == VideoCodec::H264 <==> profile.codec == Codec::H264,
        encoder_codec(profile.codec) == VideoCodec::H265 <==> profile.codec == Codec::H265,
        encoder_format(profile.chroma) == VideoPixelFormat::Yuv444 <==> profile.chroma
            == ChromaMode::Yuv444,
        profile_of(active).codec == Codec::H265 <==> active.codec == VideoCodec::H265,
        profile_of(active).chroma == ChromaMode::Yuv444 <==> active.pixel_format
            == VideoPixelFormat::Yuv444,
        format_of(active).codec == profile_of(active).codec,
        format_of(active).pixel_format == PixelFormat::Ayuv <==> active.pixel_format
            == VideoPixelFormat::Yuv444,
        (format_of(active).width, format_of(active).height) == (active.width, active.height),
        active.frames_per_second < 65536 ==> format_of(active).frames_per_second
            == active.frames_per_second,
        format_of(active).bitrate_bits_per_second == active.bitrate_bits_per_second,
{
}

/// A start is configured with what was set last: codec, chroma, bitrate, frame
/// rate, colours and cursor each as they were set.
pub proof fn starts_are_configured_as_set(settings: PlatformScreenStreamer)
    ensures
        ({
            let config = settings.config_of();
            &&& config.frames_per_second == settings.quality.frames_per_second
            &&& config.grayscale == settings.quality.grayscale
            &&& config.bitrate_bits_per_second == settings.bitrate_bits_per_second
            &&& config.capture_cursor == settings.capture_cursor
            &&& config.codec == VideoCodec::H265 <==> settings.codec == Codec::H265
            &&& config.pixel_format == VideoPixelFormat::Yuv444 <==> settings.chroma
                == ChromaMode::Yuv444
        }),
{
}

} // verus!
