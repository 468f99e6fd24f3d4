//! Encoded frames on their way from the capture to the transport.
use crate::bitrate::AdaptiveBitrate;
use crate::bitrate;
use crate::event::{AccessUnitView, EncodedAccessUnit};
use vstd::prelude::*;

verus! {

/// How often a keyframe is asked for again.
pub const KEYFRAME_RETRY_INTERVAL_US: u64 = 250_000;

/// How long the transport is given to drain before a frame is given up.
pub const DRAIN_TIMEOUT_MS: u64 = 80;

/// How long a viewer that is ready waits for its first keyframe.
pub const BOOTSTRAP_TIMEOUT_MS: u64 = 10_000;

/// A frame of a stream.
#[derive(Debug)]
pub struct EncodedFrame {
    pub stream_id: u32,
    pub frame_id: u64,
    pub capture_timestamp_us: u64,
    pub encode_complete_timestamp_us: u64,
    pub send_timestamp_us: u64,
    pub keyframe: bool,
    pub data: Vec<u8>,
}

pub struct FrameView {
    pub stream_id: u32,
    pub frame_id: u64,
    pub capture_timestamp_us: u64,
    pub encode_complete_timestamp_us: u64,
    pub send_timestamp_us: u64,
    pub keyframe: bool,
    pub data: Seq<u8>,
}

impl View for EncodedFrame {
    type V = FrameView;

    open spec fn view(&self) -> FrameView {
        FrameView {
            stream_id: self.stream_id,
            frame_id: self.frame_id,
            capture_timestamp_us: self.capture_timestamp_us,
            encode_complete_timestamp_us: self.encode_complete_timestamp_us,
            send_timestamp_us: self.send_timestamp_us,
            keyframe: self.keyframe,
            data: self.data@,
        }
    }
}

impl Clone for EncodedFrame {
    fn clone(&self) -> (copy: Self)
        ensures
            copy@ == self@,
    {
        let data = self.data.clone();
        assert(data@ =~= self.data@);
        EncodedFrame {
            stream_id: self.stream_id,
            frame_id: self.frame_id,
            capture_timestamp_us: self.capture_timestamp_us,
            encode_complete_timestamp_us: self.encode_complete_timestamp_us,
            send_timestamp_us: self.send_timestamp_us,
            keyframe: self.keyframe,
            data,
        }
    }
}

/// The frame that an access unit becomes: its codec configuration goes before
/// its data, and it has not been sent yet.
pub open spec fn frame_of(unit: AccessUnitView, stream_id: u32, frame_id: u64) -> FrameView {
    FrameView {
        stream_id,
        frame_id,
        capture_timestamp_us: unit.capture_timestamp_us,
        encode_complete_timestamp_us: unit.encode_complete_timestamp_us,
        send_timestamp_us: 0,
        keyframe: unit.keyframe,
        data: crate::event::config_of(unit) + unit.data,
    }
}

/// The id of the frame after another.
pub open spec fn next_id(frame_id: u64) -> u64 {
    ((frame_id + 1) % 0x1_0000_0000_0000_0000) as u64
}

pub fn stream_frame(unit: EncodedAccessUnit, stream_id: u32, frame_id: u64) -> (frame: EncodedFrame)
    ensures
        frame@ == frame_of(unit@, stream_id, frame_id),
{
    let mut data: Vec<u8> = match unit.codec_config {
        Some(config) => config,
        None => Vec::new(),
    };
    let ghost config = data@;
    crate::wire::write_bytes(&mut data, unit.data.as_slice());
    EncodedFrame {
        stream_id,
        frame_id,
        capture_timestamp_us: unit.capture_timestamp_us,
        encode_complete_timestamp_us: unit.encode_complete_timestamp_us,
        send_timestamp_us: 0,
        keyframe: unit.keyframe,
        data,
    }
}

/// The newest frame, and the newest keyframe to start a decoder with. Nothing
/// queues up: a frame that was not taken in time is replaced.
#[derive(Debug)]
pub struct LatestFrameSlot {
    pub frame: Option<EncodedFrame>,
    pub keyframe: Option<EncodedFrame>,
    pub dropped: u64,
}

pub struct SlotView {
    pub frame: Option<FrameView>,
    pub keyframe: Option<FrameView>,
    pub dropped: u64,
}

pub open spec fn frame_view(frame: Option<EncodedFrame>) -> Option<FrameView> {
    match frame {
        Some(inner) => Some(inner@),
        None => None,
    }
}

impl View for LatestFrameSlot {
    type V = SlotView;

    open spec fn view(&self) -> SlotView {
        SlotView {
            frame: frame_view(self.frame),
            keyframe: frame_view(self.keyframe),
            dropped: self.dropped,
        }
    }
}

impl SlotView {
    pub open spec fn published(self, frame: FrameView) -> SlotView {
        SlotView {
            frame: Some(frame),
            keyframe: if frame.keyframe {
                Some(frame)
            } else {
                self.keyframe
            },
            dropped: if self.frame is Some {
                ((self.dropped + 1) % 0x1_0000_0000_0000_0000) as u64
            } else {
                self.dropped
            },
        }
    }
}

impl LatestFrameSlot {
    pub fn new() -> (slot: Self)
        ensures
            slot@ == (SlotView { frame: None, keyframe: None, dropped: 0 }),
    {
        LatestFrameSlot { frame: None, keyframe: None, dropped: 0 }
    }

    /// Puts in a frame; one that is still there is lost and counted.
    pub fn publish(&mut self, frame: EncodedFrame)
        ensures
            final(self)@ == old(self)@.published(frame@),
    {
        if frame.keyframe {
            self.keyframe = Some(frame.clone());
        }
        if self.frame.is_some() {
            self.dropped = self.dropped.wrapping_add(1);
        }
        self.frame = Some(frame);
    }

    /// Takes out the newest frame, if there is one.
    pub fn next(&mut self) -> (frame: Option<EncodedFrame>)
        ensures
            frame_view(frame) == old(self)@.frame,
            final(self)@ == (SlotView { frame: None, ..old(self)@ }),
    {
        self.frame.take()
    }

    /// Forgets both frames.
    pub fn clear(&mut self)
        ensures
            final(self)@ == (SlotView { frame: None, keyframe: None, ..old(self)@ }),
    {
        self.frame = None;
        self.keyframe = None;
    }

    /// The newest keyframe, which stays.
    pub fn keyframe(&self) -> (frame: Option<EncodedFrame>)
        ensures
            frame_view(frame) == self@.keyframe,
    {
        match &self.keyframe {
            Some(frame) => Some(frame.clone()),
            None => None,
        }
    }

    pub fn dropped(&self) -> (dropped: u64)
        ensures
            dropped == self@.dropped,
    {
        self.dropped
    }
}

pub open spec fn published_all(slot: SlotView, frames: Seq<FrameView>) -> SlotView
    decreases frames.len(),
{
    if frames.len() == 0 {
        slot
    } else {
        published_all(slot, frames.drop_last()).published(frames.last())
    }
}

/// After any frames, the newest is the one to take, and the keyframe kept is the
/// newest keyframe among them; predictive frames never replace it.
pub proof fn newest_keyframe_is_kept(slot: SlotView, frames: Seq<FrameView>, at: int)
    requires
        0 <= at < frames.len(),
        frames[at].keyframe,
        forall|i: int| at < i < frames.len() ==> !(#[trigger] frames[i]).keyframe,
    ensures
        published_all(slot, frames).keyframe == Some(frames[at]),
        published_all(slot, frames).frame == Some(frames.last()),
    decreases frames.len(),
{
    if at < frames.len() - 1 {
        assert(!frames[frames.len() - 1].keyframe);
        newest_keyframe_is_kept(slot, frames.drop_last(), at);
    }
}

/// How a stream begins: with a keyframe, once the viewer can decode one.
#[derive(Debug, Clone, Copy, PartialEq, Eq, Structural)]
pub enum Bootstrap {
    Wait,
    /// The viewer has just become able to: forget the frame that waits, ask for
    /// a keyframe, and look for one.
    Ask,
    /// Send the newest keyframe first.
    Begin,
    Fail,
}

/// How a stream begins. `asked_ms` is how long ago a keyframe was asked for.
pub fn bootstrap(decoder_ready: bool, asked_ms: Option<u64>, keyframe: bool) -> (next: Bootstrap)
    ensures
        next == (match asked_ms {
            None => if decoder_ready {
                Bootstrap::Ask
            } else {
                Bootstrap::Wait
            },
            Some(waited) => if keyframe {
                Bootstrap::Begin
            } else if waited >= BOOTSTRAP_TIMEOUT_MS {
                Bootstrap::Fail
            } else {
                Bootstrap::Wait
            },
        }),
{
    match asked_ms {
        None => if decoder_ready {
            Bootstrap::Ask
        } else {
            Bootstrap::Wait
        },
        Some(waited) => if keyframe {
            Bootstrap::Begin
        } else if waited >= BOOTSTRAP_TIMEOUT_MS {
            Bootstrap::Fail
        } else {
            Bootstrap::Wait
        },
    }
}

/// What is said of a stream that could not begin.
pub fn bootstrap_failure() -> (message: &'static str)
    ensures
        message@ == "capture/encoder produced no bootstrap keyframe for 10 seconds"@,
{
    "capture/encoder produced no bootstrap keyframe for 10 seconds"
}

/// What happens to a frame that is due.
#[derive(Debug, Clone, Copy, PartialEq, Eq, Structural)]
pub enum FrameFate {
    Send,
    /// Wait for the transport to drain, as long as `drains` says; the frame is
    /// given up if it is `still_congested` then, see `give_up`.
    Drain,
    Drop,
}

/// What a frame's arrival leads to.
#[derive(Debug, Clone, Copy, PartialEq, Eq, Structural)]
pub struct Arrival {
    /// The bitrate that a new ceiling sets.
    pub ceiling_bitrate: Option<u32>,
    /// The bitrate that the transport's state sets.
    pub adapted_bitrate: Option<u32>,
    pub request_keyframe: bool,
    pub fate: FrameFate,
}

/// Decides which frames are sent. Predictive frames are worth nothing to a
/// viewer that has missed one, so after a gap only a keyframe goes out.
#[derive(Debug, Clone, Copy)]
pub struct VideoPacer {
    /// The stream and frame that were sent last.
    pub last_sent: Option<(u32, u64)>,
    pub recovering: bool,
    /// When a keyframe was last asked for, or 0 if none was.
    pub last_keyframe_request_us: u64,
    pub bitrate: AdaptiveBitrate,
}

/// Whether one frame follows another without a gap.
pub open spec fn follows(last: (u32, u64), stream_id: u32, frame_id: u64) -> bool {
    stream_id == last.0 && frame_id == (last.1 + 1) % 0x1_0000_0000_0000_0000
}

/// A pacer before its first frame.
pub open spec fn fresh_pacer(ceiling: u32, frame_queue: usize) -> VideoPacer {
    let maximum = if ceiling == 0 {
        1
    } else {
        ceiling
    };
    VideoPacer {
        last_sent: None,
        recovering: false,
        last_keyframe_request_us: 0,
        bitrate: AdaptiveBitrate {
            minimum: bitrate::lowest(maximum, 1_000_000),
            maximum,
            current: maximum,
            last_decrease_us: 0,
            healthy_since_us: 0,
            congested_frames: (frame_queue * 4 / 5) as usize,
        },
    }
}

impl VideoPacer {
    /// Whether a predictive frame does not follow what was sent last.
    pub open spec fn gap(self, stream_id: u32, frame_id: u64, keyframe: bool) -> bool {
        self.last_sent matches Some(last) && !follows(last, stream_id, frame_id) && !keyframe
    }

    pub open spec fn keyframe_due(self, now_us: u64) -> bool {
        self.last_keyframe_request_us == 0 || bitrate::since(now_us, self.last_keyframe_request_us)
            >= KEYFRAME_RETRY_INTERVAL_US
    }

    /// What becomes of a frame that is due, and of the pacer.
    pub open spec fn due(
        self,
        now_us: u64,
        stream_id: u32,
        frame_id: u64,
        keyframe: bool,
        ceiling: u32,
        buffered_bytes: usize,
        queued_frames: usize,
    ) -> (VideoPacer, Arrival) {
        let gap = self.gap(stream_id, frame_id, keyframe);
        let recovering = self.recovering || gap;
        let raised = self.bitrate.with_maximum(ceiling);
        let adapted = raised.after(now_us, buffered_bytes, queued_frames, gap);
        let dropped = recovering && !keyframe;
        let asked = dropped && self.keyframe_due(now_us);
        (
            VideoPacer {
                last_sent: self.last_sent,
                recovering,
                last_keyframe_request_us: if asked {
                    bitrate::nonzero(now_us)
                } else {
                    self.last_keyframe_request_us
                },
                bitrate: adapted,
            },
            Arrival {
                ceiling_bitrate: if raised.maximum != self.bitrate.maximum {
                    Some(raised.current)
                } else {
                    None
                },
                adapted_bitrate: if adapted.current != raised.current {
                    Some(adapted.current)
                } else {
                    None
                },
                request_keyframe: asked,
                fate: if dropped {
                    FrameFate::Drop
                } else if buffered_bytes >= bitrate::duration_bytes(
                    adapted.current,
                    bitrate::VIDEO_BUFFER_CONGESTED_MS,
                ) {
                    FrameFate::Drain
                } else {
                    FrameFate::Send
                },
            },
        )
    }

    /// The pacer of a stream of which nothing has been sent, at its ceiling.
    pub fn new(ceiling: u32, frame_queue: usize) -> (pacer: Self)
        requires
            4 * frame_queue <= usize::MAX,
        ensures
            pacer == fresh_pacer(ceiling, frame_queue),
            pacer.bitrate.in_range(),
    {
        let ceiling: u32 = if ceiling == 0 {
            1
        } else {
            ceiling
        };
        VideoPacer {
            last_sent: None,
            recovering: false,
            last_keyframe_request_us: 0,
            bitrate: AdaptiveBitrate::new(ceiling, frame_queue),
        }
    }

    fn request_keyframe(&mut self, now_us: u64) -> (requested: bool)
        ensures
            requested == old(self).keyframe_due(now_us),
            *final(self) == (VideoPacer {
                last_keyframe_request_us: if requested {
                    bitrate::nonzero(now_us)
                } else {
                    old(self).last_keyframe_request_us
                },
                ..*old(self)
            }),
    {
        if self.last_keyframe_request_us == 0 || now_us.saturating_sub(
            self.last_keyframe_request_us,
        ) >= KEYFRAME_RETRY_INTERVAL_US {
            self.last_keyframe_request_us = if now_us == 0 {
                1
            } else {
                now_us
            };
            true
        } else {
            false
        }
    }

    /// Decides about a frame that is due, given how full the transport and the
    /// queue behind the frame are.
    pub fn frame_due(
        &mut self,
        now_us: u64,
        stream_id: u32,
        frame_id: u64,
        keyframe: bool,
        ceiling: u32,
        buffered_bytes: usize,
        queued_frames: usize,
    ) -> (arrival: Arrival)
        requires
            old(self).bitrate.in_range(),
        ensures
            (*final(self), arrival) == old(self).due(
                now_us,
                stream_id,
                frame_id,
                keyframe,
                ceiling,
                buffered_bytes,
                queued_frames,
            ),
            final(self).bitrate.in_range(),
    {
        let gap = match self.last_sent {
            Some((last_stream, last_frame)) => (stream_id != last_stream || frame_id
                != last_frame.wrapping_add(1)) && !keyframe,
            None => false,
        };
        if gap {
            self.recovering = true;
        }
        let ceiling_bitrate = self.bitrate.set_maximum(ceiling);
        let adapted_bitrate = self.bitrate.observe(now_us, buffered_bytes, queued_frames, gap);
        if self.recovering && !keyframe {
            let request_keyframe = self.request_keyframe(now_us);
            return Arrival {
                ceiling_bitrate,
                adapted_bitrate,
                request_keyframe,
                fate: FrameFate::Drop,
            };
        }
        let fate = if buffered_bytes >= self.bitrate.congested_bytes() {
            FrameFate::Drain
        } else {
            FrameFate::Send
        };
        Arrival { ceiling_bitrate, adapted_bitrate, request_keyframe: false, fate }
    }

    /// Whether a congested transport is given more time to drain.
    pub fn drains(&self, buffered_bytes: usize, elapsed_ms: u64) -> (waits: bool)
        ensures
            waits == (buffered_bytes > bitrate::duration_bytes(
                self.bitrate.current,
                bitrate::VIDEO_BUFFER_DRAIN_MS,
            ) && elapsed_ms < DRAIN_TIMEOUT_MS),
    {
        buffered_bytes > self.bitrate.drain_bytes() && elapsed_ms < DRAIN_TIMEOUT_MS
    }

    /// Whether a transport that was given time to drain has not.
    pub fn still_congested(&self, buffered_bytes: usize) -> (congested: bool)
        ensures
            congested == (buffered_bytes >= bitrate::duration_bytes(
                self.bitrate.current,
                bitrate::VIDEO_BUFFER_CONGESTED_MS,
            )),
    {
        buffered_bytes >= self.bitrate.congested_bytes()
    }

    /// Gives up on a frame that the transport cannot take, and on the queued
    /// frames that were dropped with it: only a keyframe can follow.
    pub fn give_up(&mut self, now_us: u64, buffered_bytes: usize, queued_dropped: usize) -> (answer: (
        Option<u32>,
        bool,
    ))
        requires
            old(self).bitrate.in_range(),
        ensures
            ({
                let adapted = old(self).bitrate.after(now_us, buffered_bytes, queued_dropped, true);
                &&& answer.0 == (if adapted.current != old(self).bitrate.current {
                    Some(adapted.current)
                } else {
                    None
                })
                &&& answer.1 == old(self).keyframe_due(now_us)
                &&& *final(self) == (VideoPacer {
                    last_sent: old(self).last_sent,
                    recovering: true,
                    last_keyframe_request_us: if answer.1 {
                        bitrate::nonzero(now_us)
                    } else {
                        old(self).last_keyframe_request_us
                    },
                    bitrate: adapted,
                })
                &&& final(self).bitrate.in_range()
            }),
    {
        self.recovering = true;
        let adapted = self.bitrate.observe(now_us, buffered_bytes, queued_dropped, true);
        let request = self.request_keyframe(now_us);
        (adapted, request)
    }

    /// Records that a frame went out, or only a part of it: a chain is never
    /// continued after a part.
    pub fn sent(&mut self, stream_id: u32, frame_id: u64, keyframe: bool, complete: bool)
        ensures
            *final(self) == (if complete {
                VideoPacer {
                    last_sent: Some((stream_id, frame_id)),
                    recovering: old(self).recovering && !keyframe,
                    ..*old(self)
                }
            } else {
                VideoPacer { recovering: true, ..*old(self) }
            }),
    {
        if complete {
            self.last_sent = Some((stream_id, frame_id));
            if keyframe {
                self.recovering = false;
            }
        } else {
            self.recovering = true;
        }
    }
}

/// A predictive frame is only ever sent right after the frame it builds on, and
/// never while a keyframe is awaited.
pub proof fn predictive_frames_keep_the_chain(
    pacer: VideoPacer,
    now_us: u64,
    stream_id: u32,
    frame_id: u64,
    ceiling: u32,
    buffered_bytes: usize,
    queued_frames: usize,
)
    requires
        pacer.due(
            now_us,
            stream_id,
            frame_id,
            false,
            ceiling,
            buffered_bytes,
            queued_frames,
        ).1.fate != FrameFate::Drop,
    ensures
        !pacer.recovering,
        pacer.last_sent matches Some(last) ==> follows(last, stream_id, frame_id),
{
}

/// A new stream gives way to the first congestion that it meets: its bitrate
/// falls to three quarters of the ceiling, or to the floor if that is higher.
pub proof fn fresh_streams_give_way(
    ceiling: u32,
    frame_queue: usize,
    now_us: u64,
    stream_id: u32,
    frame_id: u64,
    keyframe: bool,
    buffered_bytes: usize,
    queued_frames: usize,
)
    requires
        ceiling > bitrate::lowest(ceiling, 1_000_000),
        fresh_pacer(ceiling, frame_queue).bitrate.congested(buffered_bytes, queued_frames, false),
    ensures
        ({
            let (after, arrival) = fresh_pacer(ceiling, frame_queue).due(
                now_us,
                stream_id,
                frame_id,
                keyframe,
                ceiling,
                buffered_bytes,
                queued_frames,
            );
            let three_quarters = ceiling * 3 / 4;
            let floor = bitrate::lowest(ceiling, 1_000_000);
            &&& after.bitrate.current == (if three_quarters < floor {
                floor as int
            } else {
                three_quarters
            })
            &&& arrival.adapted_bitrate == Some(after.bitrate.current)
        }),
{
}

/// While a keyframe is awaited, requests for one are at least the retry
/// interval apart.
pub proof fn keyframe_requests_are_rate_limited(
    pacer: VideoPacer,
    now_us: u64,
    stream_id: u32,
    frame_id: u64,
    keyframe: bool,
    ceiling: u32,
    buffered_bytes: usize,
    queued_frames: usize,
)
    requires
        pacer.last_keyframe_request_us > 0,
        pacer.due(
            now_us,
            stream_id,
            frame_id,
            keyframe,
            ceiling,
            buffered_bytes,
            queued_frames,
        ).1.request_keyframe,
    ensures
        now_us >= pacer.last_keyframe_request_us + KEYFRAME_RETRY_INTERVAL_US,
{
}

/// A frame is only sent while less than 150 ms of the stream wait in the
/// transport, or fewer than 16384 bytes, at the bitrate then in force; one that
/// is not dropped waits for a fuller transport to drain.
pub proof fn frames_wait_for_a_full_transport(
    pacer: VideoPacer,
    now_us: u64,
    stream_id: u32,
    frame_id: u64,
    keyframe: bool,
    ceiling: u32,
    buffered_bytes: usize,
    queued_frames: usize,
)
    requires
        buffered_bytes < usize::MAX,
    ensures
        ({
            let (after, arrival) = pacer.due(
                now_us,
                stream_id,
                frame_id,
                keyframe,
                ceiling,
                buffered_bytes,
                queued_frames,
            );
            let full = buffered_bytes * 8_000 >= after.bitrate.current * 150 && buffered_bytes
                >= 16_384;
            &&& arrival.fate == FrameFate::Send ==> !full
            &&& arrival.fate == FrameFate::Drain ==> full
            &&& full ==> arrival.fate == FrameFate::Drain || arrival.fate == FrameFate::Drop
        }),
{
    let (after, _) = pacer.due(
        now_us,
        stream_id,
        frame_id,
        keyframe,
        ceiling,
        buffered_bytes,
        queued_frames,
    );
    bitrate::bytes_stand_for_time(after.bitrate.current, 150, buffered_bytes);
}

/// A keyframe is never dropped on arrival. A predictive frame is dropped exactly
/// when a keyframe is awaited, or when it does not come right after the frame of
/// its stream that was sent last; from then on a keyframe is awaited.
pub proof fn only_broken_chains_are_dropped(
    pacer: VideoPacer,
    now_us: u64,
    stream_id: u32,
    frame_id: u64,
    keyframe: bool,
    ceiling: u32,
    buffered_bytes: usize,
    queued_frames: usize,
)
    ensures
        ({
            let (after, arrival) = pacer.due(
                now_us,
                stream_id,
                frame_id,
                keyframe,
                ceiling,
                buffered_bytes,
                queued_frames,
            );
            let broken = match pacer.last_sent {
                None => false,
                Some((stream, frame)) => stream != stream_id || (if frame == u64::MAX {
                    frame_id != 0
                } else {
                    frame_id != frame + 1
                }),
            };
            &&& arrival.fate == FrameFate::Drop <==> !keyframe && (pacer.recovering || broken)
            &&& after.recovering == (pacer.recovering || (broken && !keyframe))
            &&& after.last_sent == pacer.last_sent
            &&& arrival.request_keyframe ==> arrival.fate == FrameFate::Drop
            &&& arrival.fate == FrameFate::Drop && (pacer.last_keyframe_request_us == 0 || now_us
                >= pacer.last_keyframe_request_us + 250_000) ==> arrival.request_keyframe
            &&& arrival.request_keyframe ==> after.last_keyframe_request_us == (if now_us > 0 {
                now_us
            } else {
                1
            })
            &&& !arrival.request_keyframe ==> after.last_keyframe_request_us
                == pacer.last_keyframe_request_us
        }),
{
}

/// What a frame's arrival tells of the bitrate is what then is in force: a new
/// ceiling is told as such, and a change that the transport or a broken chain
/// causes is told on its own. Under an unchanged ceiling a broken chain lowers
/// the bitrate as a loss does.
pub proof fn arrivals_tell_the_bitrate(
    pacer: VideoPacer,
    now_us: u64,
    stream_id: u32,
    frame_id: u64,
    keyframe: bool,
    ceiling: u32,
    buffered_bytes: usize,
    queued_frames: usize,
)
    requires
        pacer.bitrate.minimum <= pacer.bitrate.current <= pacer.bitrate.maximum,
    ensures
        ({
            let (after, arrival) = pacer.due(
                now_us,
                stream_id,
                frame_id,
                keyframe,
                ceiling,
                buffered_bytes,
                queued_frames,
            );
            let same = ceiling == pacer.bitrate.maximum && ceiling > 0;
            let broken = !keyframe && match pacer.last_sent {
                None => false,
                Some((stream, frame)) => stream != stream_id || (if frame == u64::MAX {
                    frame_id != 0
                } else {
                    frame_id != frame + 1
                }),
            };
            &&& after.bitrate.current == (match (arrival.adapted_bitrate, arrival.ceiling_bitrate) {
                (Some(bits), _) => bits,
                (None, Some(bits)) => bits,
                (None, None) => pacer.bitrate.current,
            })
            &&& same ==> arrival.ceiling_bitrate is None
            &&& ceiling > 0 && ceiling != pacer.bitrate.maximum ==> arrival.ceiling_bitrate
                == Some(ceiling)
            &&& same ==> after.bitrate == pacer.bitrate.after(
                now_us,
                buffered_bytes,
                queued_frames,
                broken,
            )
        }),
{
}

/// A frame that was published and not taken is lost, and counted: after any
/// frames as many are counted as were published beyond the one that waits.
pub proof fn replaced_frames_are_counted(slot: SlotView, frames: Seq<FrameView>)
    requires
        slot.dropped + frames.len() <= u64::MAX,
    ensures
        frames.len() > 0 ==> published_all(slot, frames).dropped + 1 == slot.dropped + frames.len()
            + (if slot.frame is Some {
            1int
        } else {
            0
        }),
        frames.len() > 0 ==> published_all(slot, frames).frame == Some(frames.last()),
        (forall|i: int| 0 <= i < frames.len() ==> !(#[trigger] frames[i]).keyframe)
            ==> published_all(slot, frames).keyframe == slot.keyframe,
    decreases frames.len(),
{
    if frames.len() > 0 {
        let earlier = frames.drop_last();
        replaced_frames_are_counted(slot, earlier);
        assert(forall|i: int| 0 <= i < earlier.len() ==> earlier[i] == frames[i]);
        if earlier.len() > 0 {
            assert(published_all(slot, earlier).frame is Some);
        }
    }
}

/// A decoder finds a frame's codec configuration before its data, nothing of
/// either is lost, and the times stay what they were; a frame that was not sent
/// has no time of sending.
pub proof fn frames_carry_their_units(unit: AccessUnitView, stream_id: u32, frame_id: u64)
    ensures
        ({
            let frame = frame_of(unit, stream_id, frame_id);
            let head = match unit.codec_config {
                Some(config) => config,
                None => Seq::<u8>::empty(),
            };
            &&& frame.data.len() == head.len() + unit.data.len()
            &&& frame.data.take(head.len() as int) == head
            &&& frame.data.skip(head.len() as int) == unit.data
            &&& frame.keyframe == unit.keyframe
            &&& (frame.stream_id, frame.frame_id) == (stream_id, frame_id)
            &&& frame.capture_timestamp_us == unit.capture_timestamp_us
            &&& frame.encode_complete_timestamp_us == unit.encode_complete_timestamp_us
            &&& frame.send_timestamp_us == 0
        }),
{
    let frame = frame_of(unit, stream_id, frame_id);
    let head = match unit.codec_config {
        Some(config) => config,
        None => Seq::<u8>::empty(),
    };
    assert(frame.data.take(head.len() as int) =~= head);
    assert(frame.data.skip(head.len() as int) =~= unit.data);
}

} // verus!
