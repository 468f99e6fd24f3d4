//! Adapting the video bitrate to what the transport carries: a multiplicative
//! decrease when it is congested, a slow additive increase while it is not.
use vstd::prelude::*;

verus! {

pub const VIDEO_BUFFER_DRAIN_MS: u32 = 50;

pub const VIDEO_BUFFER_CONGESTED_MS: u32 = 150;

pub const BITRATE_DECREASE_INTERVAL_US: u64 = 500_000;

pub const BITRATE_INCREASE_INTERVAL_US: u64 = 5_000_000;

/// The fewest bytes that a duration stands for.
pub const MIN_DURATION_BYTES: usize = 16_384;

/// The bytes that a bitrate produces in a duration, rounded up, but at least
/// `MIN_DURATION_BYTES` and at most what a `usize` holds.
pub open spec fn duration_bytes(bits_per_second: u32, duration_ms: u32) -> int {
    let bytes = (bits_per_second * duration_ms + 7_999) / 8_000;
    if bytes > usize::MAX {
        usize::MAX as int
    } else if bytes < MIN_DURATION_BYTES {
        MIN_DURATION_BYTES as int
    } else {
        bytes
    }
}

pub fn bitrate_duration_bytes(bits_per_second: u32, duration_ms: u32) -> (bytes: usize)
    ensures
        bytes == duration_bytes(bits_per_second, duration_ms),
{
    assert(bits_per_second * duration_ms <= 0xffff_ffff * 0xffff_ffff) by (nonlinear_arith);
    let bits: u64 = bits_per_second as u64 * duration_ms as u64;
    let bytes: u64 = if bits % 8_000 == 0 {
        bits / 8_000
    } else {
        bits / 8_000 + 1
    };
    assert(bytes == (bits + 7_999) / 8_000);
    if bytes > usize::MAX as u64 {
        usize::MAX
    } else if bytes < 16_384 {
        16_384
    } else {
        bytes as usize
    }
}

/// The bitrate of a stream, between a floor and a ceiling.
#[derive(Debug, Clone, Copy, PartialEq, Eq, Structural)]
pub struct AdaptiveBitrate {
    pub minimum: u32,
    pub maximum: u32,
    pub current: u32,
    /// When the bitrate was last decreased, or 0 if it has not been.
    pub last_decrease_us: u64,
    /// Since when the transport has been healthy, or 0 if it is not.
    pub healthy_since_us: u64,
    /// How many queued frames count as congestion.
    pub congested_frames: usize,
}

/// The lowest bitrate under a ceiling: an eighth of it, but not below `floor`
/// unless the ceiling itself is.
pub open spec fn lowest(maximum: u32, floor: u32) -> u32 {
    let eighth = maximum / 8;
    let raised = if eighth < floor {
        floor
    } else {
        eighth
    };
    if raised > maximum {
        maximum
    } else {
        raised
    }
}

fn lowest_bitrate(maximum: u32, floor: u32) -> (minimum: u32)
    ensures
        minimum == lowest(maximum, floor),
{
    let eighth: u32 = maximum / 8;
    let raised: u32 = if eighth < floor {
        floor
    } else {
        eighth
    };
    if raised > maximum {
        maximum
    } else {
        raised
    }
}

pub open spec fn nonzero(value: u64) -> u64 {
    if value == 0 {
        1
    } else {
        value
    }
}

/// How long ago a time was; 0 if it has not come yet.
pub open spec fn since(now_us: u64, then_us: u64) -> int {
    if now_us < then_us {
        0
    } else {
        now_us - then_us
    }
}

impl AdaptiveBitrate {
    /// The bitrate is between its floor and its ceiling.
    pub open spec fn in_range(self) -> bool {
        self.minimum <= self.current <= self.maximum
    }

    pub open spec fn congested(self, buffered_bytes: usize, queued_frames: usize, lost: bool) -> bool {
        lost || buffered_bytes >= duration_bytes(self.current, VIDEO_BUFFER_CONGESTED_MS)
            || queued_frames >= self.congested_frames
    }

    pub open spec fn healthy(self, buffered_bytes: usize, queued_frames: usize) -> bool {
        buffered_bytes <= duration_bytes(self.current, VIDEO_BUFFER_DRAIN_MS) && queued_frames <= 1
    }

    /// Three quarters of the bitrate, but not below the floor.
    pub open spec fn decreased(self) -> u32 {
        let reduced = self.current * 3 / 4;
        if reduced < self.minimum {
            self.minimum
        } else {
            reduced as u32
        }
    }

    /// A tenth more, at least 250 kbit/s, but not above the ceiling.
    pub open spec fn increased(self) -> u32 {
        let step = if self.current / 10 < 250_000 {
            250_000
        } else {
            self.current / 10
        };
        if self.current + step > self.maximum {
            self.maximum
        } else {
            (self.current + step) as u32
        }
    }

    /// The bitrate after congestion at a time; decreases are rate limited.
    pub open spec fn after_congestion(self, now_us: u64) -> AdaptiveBitrate {
        let calm = AdaptiveBitrate { healthy_since_us: 0, ..self };
        if self.last_decrease_us == 0 || since(now_us, self.last_decrease_us)
            >= BITRATE_DECREASE_INTERVAL_US {
            AdaptiveBitrate {
                last_decrease_us: nonzero(now_us),
                current: if self.decreased() < self.current {
                    self.decreased()
                } else {
                    self.current
                },
                ..calm
            }
        } else {
            calm
        }
    }

    /// The bitrate after a time without congestion.
    pub open spec fn after_calm(self, now_us: u64, healthy: bool) -> AdaptiveBitrate {
        if !healthy || self.current >= self.maximum {
            AdaptiveBitrate { healthy_since_us: 0, ..self }
        } else if self.healthy_since_us == 0 {
            AdaptiveBitrate { healthy_since_us: nonzero(now_us), ..self }
        } else if since(now_us, self.healthy_since_us) >= BITRATE_INCREASE_INTERVAL_US {
            AdaptiveBitrate {
                healthy_since_us: nonzero(now_us),
                current: self.increased(),
                ..self
            }
        } else {
            self
        }
    }

    pub open spec fn after(
        self,
        now_us: u64,
        buffered_bytes: usize,
        queued_frames: usize,
        lost: bool,
    ) -> AdaptiveBitrate {
        if self.congested(buffered_bytes, queued_frames, lost) {
            self.after_congestion(now_us)
        } else {
            self.after_calm(now_us, self.healthy(buffered_bytes, queued_frames))
        }
    }

    /// Whether an observation is answered with a bitrate: whenever it lowers
    /// the bitrate or raises it.
    pub open spec fn answers(
        self,
        now_us: u64,
        buffered_bytes: usize,
        queued_frames: usize,
        lost: bool,
    ) -> bool {
        self.after(now_us, buffered_bytes, queued_frames, lost).current != self.current
    }

    pub open spec fn with_maximum(self, maximum: u32) -> AdaptiveBitrate {
        let ceiling = if maximum == 0 {
            1
        } else {
            maximum
        };
        if ceiling == self.maximum {
            self
        } else {
            AdaptiveBitrate {
                minimum: lowest(ceiling, 500_000),
                maximum: ceiling,
                current: ceiling,
                last_decrease_us: 0,
                healthy_since_us: 0,
                ..self
            }
        }
    }

    /// A stream that starts at its ceiling. `frame_queue` is how many encoded
    /// frames can wait; four fifths of that are congestion.
    pub fn new(maximum: u32, frame_queue: usize) -> (bitrate: Self)
        requires
            4 * frame_queue <= usize::MAX,
        ensures
            bitrate == (AdaptiveBitrate {
                minimum: lowest(maximum, 1_000_000),
                maximum,
                current: maximum,
                last_decrease_us: 0,
                healthy_since_us: 0,
                congested_frames: (frame_queue * 4 / 5) as usize,
            }),
            bitrate.in_range(),
    {
        AdaptiveBitrate {
            minimum: lowest_bitrate(maximum, 1_000_000),
            maximum,
            current: maximum,
            last_decrease_us: 0,
            healthy_since_us: 0,
            congested_frames: frame_queue * 4 / 5,
        }
    }

    /// Changes the ceiling; a new one takes effect at once.
    pub fn set_maximum(&mut self, maximum: u32) -> (changed: Option<u32>)
        ensures
            *final(self) == old(self).with_maximum(maximum),
            changed == (if final(self).maximum == old(self).maximum {
                None
            } else {
                Some(final(self).current)
            }),
            old(self).in_range() ==> final(self).in_range(),
    {
        let maximum: u32 = if maximum == 0 {
            1
        } else {
            maximum
        };
        if self.maximum == maximum {
            return None;
        }
        self.maximum = maximum;
        self.minimum = lowest_bitrate(maximum, 500_000);
        self.current = maximum;
        self.last_decrease_us = 0;
        self.healthy_since_us = 0;
        Some(maximum)
    }

    /// Takes in how the transport is doing; answers with a new bitrate if it
    /// should change.
    pub fn observe(
        &mut self,
        now_us: u64,
        buffered_bytes: usize,
        queued_frames: usize,
        reference_chain_lost: bool,
    ) -> (changed: Option<u32>)
        requires
            old(self).in_range(),
        ensures
            *final(self) == old(self).after(
                now_us,
                buffered_bytes,
                queued_frames,
                reference_chain_lost,
            ),
            final(self).in_range(),
            changed == (if old(self).answers(
                now_us,
                buffered_bytes,
                queued_frames,
                reference_chain_lost,
            ) {
                Some(final(self).current)
            } else {
                None
            }),
    {
        let congested = reference_chain_lost || buffered_bytes >= self.congested_bytes()
            || queued_frames >= self.congested_frames;
        if congested {
            self.healthy_since_us = 0;
            if self.last_decrease_us == 0 || now_us.saturating_sub(self.last_decrease_us)
                >= BITRATE_DECREASE_INTERVAL_US {
                self.last_decrease_us = if now_us == 0 {
                    1
                } else {
                    now_us
                };
                let reduced: u32 = (self.current as u64 * 3 / 4) as u32;
                let reduced: u32 = if reduced < self.minimum {
                    self.minimum
                } else {
                    reduced
                };
                if reduced < self.current {
                    self.current = reduced;
                    return Some(self.current);
                }
            }
            return None;
        }
        let healthy = buffered_bytes <= self.drain_bytes() && queued_frames <= 1;
        if !healthy || self.current >= self.maximum {
            self.healthy_since_us = 0;
            return None;
        }
        if self.healthy_since_us == 0 {
            self.healthy_since_us = if now_us == 0 {
                1
            } else {
                now_us
            };
            return None;
        }
        if now_us.saturating_sub(self.healthy_since_us) >= BITRATE_INCREASE_INTERVAL_US {
            self.healthy_since_us = if now_us == 0 {
                1
            } else {
                now_us
            };
            let tenth: u32 = self.current / 10;
            let step: u32 = if tenth < 250_000 {
                250_000
            } else {
                tenth
            };
            let raised: u32 = self.current.saturating_add(step);
            self.current = if raised > self.maximum {
                self.maximum
            } else {
                raised
            };
            return Some(self.current);
        }
        None
    }

    /// The buffered bytes below which the transport is healthy.
    pub fn drain_bytes(&self) -> (bytes: usize)
        ensures
            bytes == duration_bytes(self.current, VIDEO_BUFFER_DRAIN_MS),
    {
        bitrate_duration_bytes(self.current, VIDEO_BUFFER_DRAIN_MS)
    }

    /// The buffered bytes from which the transport is congested.
    pub fn congested_bytes(&self) -> (bytes: usize)
        ensures
            bytes == duration_bytes(self.current, VIDEO_BUFFER_CONGESTED_MS),
    {
        bitrate_duration_bytes(self.current, VIDEO_BUFFER_CONGESTED_MS)
    }
}

/// A moment of an observed transport.
pub struct Observation {
    pub now_us: u64,
    pub buffered_bytes: usize,
    pub queued_frames: usize,
    pub lost: bool,
}

pub open spec fn after_all(bitrate: AdaptiveBitrate, observations: Seq<Observation>) -> AdaptiveBitrate
    decreases observations.len(),
{
    if observations.len() == 0 {
        bitrate
    } else {
        let last = observations.last();
        after_all(bitrate, observations.drop_last()).after(
            last.now_us,
            last.buffered_bytes,
            last.queued_frames,
            last.lost,
        )
    }
}

/// Whatever is observed, the bitrate stays between its floor and its ceiling,
/// and both stay where they are.
pub proof fn bitrate_stays_in_range(bitrate: AdaptiveBitrate, observations: Seq<Observation>)
    requires
        bitrate.in_range(),
    ensures
        after_all(bitrate, observations).in_range(),
        after_all(bitrate, observations).minimum == bitrate.minimum,
        after_all(bitrate, observations).maximum == bitrate.maximum,
    decreases observations.len(),
{
    if observations.len() > 0 {
        bitrate_stays_in_range(bitrate, observations.drop_last());
    }
}

/// The bitrate before one of a series of observations.
pub open spec fn before(
    bitrate: AdaptiveBitrate,
    observations: Seq<Observation>,
    at: int,
) -> AdaptiveBitrate {
    after_all(bitrate, observations.take(at))
}

/// Whether an observation lowers the bitrate.
pub open spec fn lowers(bitrate: AdaptiveBitrate, observations: Seq<Observation>, at: int) -> bool {
    before(bitrate, observations, at + 1).current < before(bitrate, observations, at).current
}

/// Whether an observation raises the bitrate.
pub open spec fn raises(bitrate: AdaptiveBitrate, observations: Seq<Observation>, at: int) -> bool {
    before(bitrate, observations, at + 1).current > before(bitrate, observations, at).current
}

/// Whether the observations are in the order of their times.
pub open spec fn in_order(observations: Seq<Observation>) -> bool {
    forall|i: int, j: int|
        0 <= i <= j < observations.len() ==> (#[trigger] observations[i]).now_us <= (
        #[trigger] observations[j]).now_us
}

proof fn lemma_step(bitrate: AdaptiveBitrate, observations: Seq<Observation>, at: int)
    requires
        0 <= at < observations.len(),
    ensures
        before(bitrate, observations, at + 1) == before(bitrate, observations, at).after(
            observations[at].now_us,
            observations[at].buffered_bytes,
            observations[at].queued_frames,
            observations[at].lost,
        ),
{
    let longer = observations.take(at + 1);
    assert(longer.drop_last() =~= observations.take(at));
    assert(longer.last() == observations[at]);
}

proof fn lemma_after_change(
    bitrate: AdaptiveBitrate,
    observations: Seq<Observation>,
    change: int,
    at: int,
)
    requires
        0 <= change < at <= observations.len(),
        lowers(bitrate, observations, change) || raises(bitrate, observations, change),
    ensures
        lowers(bitrate, observations, change) ==> before(
            bitrate,
            observations,
            at,
        ).last_decrease_us >= nonzero(observations[change].now_us),
        in_order(observations) ==> before(bitrate, observations, at).healthy_since_us == 0
            || before(bitrate, observations, at).healthy_since_us >= nonzero(
            observations[change].now_us,
        ),
    decreases at,
{
    lemma_step(bitrate, observations, at - 1);
    if change < at - 1 {
        lemma_after_change(bitrate, observations, change, at - 1);
    }
}

/// The bitrate does not oscillate: any two decreases are at least the interval
/// between decreases apart, and an increase comes at least the interval before
/// increases after any change, however many observations lie between. For
/// increases the observations have to be in the order of their times.
pub proof fn changes_are_rate_limited(
    bitrate: AdaptiveBitrate,
    observations: Seq<Observation>,
    first: int,
    second: int,
)
    requires
        0 <= first < second < observations.len(),
    ensures
        lowers(bitrate, observations, first) && lowers(bitrate, observations, second)
            ==> observations[second].now_us >= observations[first].now_us
            + BITRATE_DECREASE_INTERVAL_US,
        in_order(observations) && (lowers(bitrate, observations, first) || raises(
            bitrate,
            observations,
            first,
        )) && raises(bitrate, observations, second) ==> observations[second].now_us
            >= observations[first].now_us + BITRATE_INCREASE_INTERVAL_US,
{
    lemma_step(bitrate, observations, second);
    if lowers(bitrate, observations, first) || raises(bitrate, observations, first) {
        lemma_after_change(bitrate, observations, first, second);
    }
}

/// The thresholds stand for time: at any bitrate, what drains in 50 ms is less
/// than what counts as congested, unless both are at the least that a duration
/// stands for.
pub proof fn thresholds_are_ordered(bits_per_second: u32)
    ensures
        duration_bytes(bits_per_second, VIDEO_BUFFER_DRAIN_MS) <= duration_bytes(
            bits_per_second,
            VIDEO_BUFFER_CONGESTED_MS,
        ),
{
}

/// Bytes reach what a bitrate produces in a duration exactly when they hold that
/// many milliseconds of it, and are no fewer than 16384.
pub proof fn bytes_stand_for_time(bits_per_second: u32, duration_ms: u32, bytes: usize)
    ensures
        bytes >= duration_bytes(bits_per_second, duration_ms) <==> bytes * 8_000 >= bits_per_second
            * duration_ms && bytes >= 16_384 || bytes == usize::MAX,
{
}

/// A stream whose reference chain is lost is congested, whatever waits to be
/// sent: unless its bitrate was lowered less than half a second ago, it falls to
/// three quarters, but not below its floor, and the encoder is told. It never
/// rises on a loss.
pub proof fn lost_chains_lower_the_bitrate(
    bitrate: AdaptiveBitrate,
    now_us: u64,
    buffered_bytes: usize,
    queued_frames: usize,
)
    requires
        bitrate.minimum <= bitrate.current <= bitrate.maximum,
    ensures
        bitrate.after(now_us, buffered_bytes, queued_frames, true).current <= bitrate.current,
        bitrate.minimum < bitrate.current && (bitrate.last_decrease_us == 0 || now_us
            >= bitrate.last_decrease_us + 500_000) ==> {
            let after = bitrate.after(now_us, buffered_bytes, queued_frames, true);
            &&& 4 * after.current <= 3 * bitrate.current || after.current == bitrate.minimum
            &&& 4 * after.current > 3 * bitrate.current - 4
            &&& after.current >= bitrate.minimum
            &&& after.current < bitrate.current
            &&& bitrate.answers(now_us, buffered_bytes, queued_frames, true)
        },
{
}

/// The transport is congested when 150 ms of the stream wait in it, at least
/// 16384 bytes, or when too many frames wait before it: the bitrate then falls
/// as it does on a loss. While neither is so and no chain is lost, it does not
/// fall.
pub proof fn full_transports_lower_the_bitrate(
    bitrate: AdaptiveBitrate,
    now_us: u64,
    buffered_bytes: usize,
    queued_frames: usize,
)
    requires
        bitrate.minimum <= bitrate.current <= bitrate.maximum,
        buffered_bytes < usize::MAX,
    ensures
        ({
            let full = (buffered_bytes * 8_000 >= bitrate.current * 150 && buffered_bytes >= 16_384)
                || queued_frames >= bitrate.congested_frames;
            let after = bitrate.after(now_us, buffered_bytes, queued_frames, false);
            &&& full ==> after == bitrate.after(now_us, buffered_bytes, queued_frames, true)
            &&& !full ==> after.current >= bitrate.current
            &&& !full ==> after.last_decrease_us == bitrate.last_decrease_us
            &&& full ==> after.healthy_since_us == 0
        }),
{
}

/// A transport that has been healthy for five seconds, with less than 50 ms of
/// the stream in it and at most one frame before it, lets the bitrate rise: by a
/// tenth, at least 250 kbit/s, up to the ceiling. Nothing else raises it.
pub proof fn health_raises_the_bitrate(
    bitrate: AdaptiveBitrate,
    now_us: u64,
    buffered_bytes: usize,
    queued_frames: usize,
)
    requires
        bitrate.minimum <= bitrate.current <= bitrate.maximum,
        bitrate.congested_frames > 1,
        buffered_bytes < 0x7fff_ffff,
    ensures
        ({
            let healthy = queued_frames <= 1 && (buffered_bytes * 8_000 < bitrate.current * 50
                + 8_000 || buffered_bytes <= 16_384);
            let full = (buffered_bytes * 8_000 >= bitrate.current * 150 && buffered_bytes >= 16_384)
                || queued_frames >= bitrate.congested_frames;
            let after = bitrate.after(now_us, buffered_bytes, queued_frames, false);
            let long = bitrate.healthy_since_us > 0 && now_us >= bitrate.healthy_since_us
                + 5_000_000;
            &&& after.current > bitrate.current ==> healthy && long
            &&& healthy && !full && long && bitrate.current < bitrate.maximum ==> {
                &&& after.current == bitrate.maximum || (after.current >= bitrate.current + 250_000
                    && after.current * 10 > bitrate.current * 11 - 10)
                &&& after.current <= bitrate.current + 250_000 || after.current * 10
                    <= bitrate.current * 11
                &&& bitrate.answers(now_us, buffered_bytes, queued_frames, false)
                &&& after.healthy_since_us >= now_us
            }
            &&& !healthy ==> after.healthy_since_us == 0
            &&& healthy && !full && bitrate.healthy_since_us == 0 && bitrate.current
                < bitrate.maximum ==> after.healthy_since_us > 0 && after.healthy_since_us
                >= now_us && after.current == bitrate.current
        }),
{
}

/// A new ceiling takes effect at once: the stream starts over at it, with a floor
/// of an eighth of it but at least 500 kbit/s where the ceiling allows. A ceiling
/// that is the old one changes nothing, and none is 0.
pub proof fn ceilings_take_effect_at_once(bitrate: AdaptiveBitrate, maximum: u32)
    ensures
        ({
            let after = bitrate.with_maximum(maximum);
            &&& after.maximum >= 1 && (maximum >= 1 ==> after.maximum == maximum)
            &&& after.maximum == bitrate.maximum ==> after == bitrate
            &&& after.maximum != bitrate.maximum ==> {
                &&& after.current == after.maximum
                &&& after.minimum <= after.maximum
                &&& after.maximum <= 500_000 ==> after.minimum == after.maximum
                &&& 500_000 <= after.maximum <= 4_000_000 ==> after.minimum == 500_000
                &&& after.maximum >= 4_000_000 ==> after.minimum <= after.maximum / 8
                    && after.minimum * 8 > after.maximum - 8
                &&& after.last_decrease_us == 0 && after.healthy_since_us == 0
            }
            &&& after.congested_frames == bitrate.congested_frames
        }),
{
}

/// The floor under a ceiling is an eighth of it, or the given least where that is
/// more, and never above the ceiling.
pub proof fn floors_leave_room(maximum: u32, floor: u32)
    ensures
        lowest(maximum, floor) <= maximum,
        floor <= maximum ==> lowest(maximum, floor) >= floor,
        lowest(maximum, floor) * 8 > maximum - 8,
        lowest(maximum, floor) <= floor || lowest(maximum, floor) * 8 <= maximum,
{
}

/// An observation leaves the floor, the ceiling and the frames that count as
/// congestion alone. Congestion ends what was healthy; it lowers the bitrate at
/// most every half second, counted from when it last did. Without it, a stream at
/// its ceiling waits for nothing, and one that has not been healthy for long enough
/// stays as it is.
pub proof fn observations_change_only_the_bitrate(
    bitrate: AdaptiveBitrate,
    now_us: u64,
    buffered_bytes: usize,
    queued_frames: usize,
    lost: bool,
)
    requires
        bitrate.minimum <= bitrate.current <= bitrate.maximum,
        bitrate.congested_frames > 1,
        buffered_bytes < 0x7fff_ffff,
    ensures
        ({
            let after = bitrate.after(now_us, buffered_bytes, queued_frames, lost);
            let time = if now_us > 0 {
                now_us
            } else {
                1
            };
            let congested = lost || (buffered_bytes * 8_000 >= bitrate.current * 150
                && buffered_bytes >= 16_384) || queued_frames >= bitrate.congested_frames;
            let healthy = queued_frames <= 1 && (buffered_bytes * 8_000 < bitrate.current * 50
                + 8_000 || buffered_bytes <= 16_384);
            let due = bitrate.last_decrease_us == 0 || now_us >= bitrate.last_decrease_us
                + 500_000;
            let long = bitrate.healthy_since_us > 0 && now_us >= bitrate.healthy_since_us
                + 5_000_000;
            &&& after.minimum == bitrate.minimum
            &&& after.maximum == bitrate.maximum
            &&& after.congested_frames == bitrate.congested_frames
            &&& congested ==> after.healthy_since_us == 0
            &&& congested && due ==> after.last_decrease_us == time
            &&& congested && !due ==> after.last_decrease_us == bitrate.last_decrease_us
                && after.current == bitrate.current
            &&& !congested ==> after.last_decrease_us == bitrate.last_decrease_us
            &&& !congested && (bitrate.current == bitrate.maximum || !healthy)
                ==> after.healthy_since_us == 0 && after.current == bitrate.current
            &&& !congested && healthy && bitrate.current < bitrate.maximum && long
                ==> after.healthy_since_us == time
            &&& !congested && healthy && bitrate.current < bitrate.maximum
                && bitrate.healthy_since_us == 0 ==> after.healthy_since_us == time
                && after.current == bitrate.current
            &&& !congested && healthy && bitrate.current < bitrate.maximum
                && bitrate.healthy_since_us > 0 && !long ==> after == bitrate
            &&& bitrate.answers(now_us, buffered_bytes, queued_frames, lost) <==> after.current
                != bitrate.current
        }),
{
    bytes_stand_for_time(bitrate.current, 150, buffered_bytes);
}

/// How long ago a time was, and that time, make now; one that has not come yet, or
/// comes just now, was no time ago.
pub proof fn times_to_come_are_not_past(now_us: u64, then_us: u64)
    ensures
        then_us <= now_us ==> then_us + since(now_us, then_us) == now_us,
        then_us >= now_us ==> since(now_us, then_us) == 0,
{
}

} // verus!
