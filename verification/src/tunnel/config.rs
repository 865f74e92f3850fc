//! Tunnel settings, and the limits negotiated from two hello frames.
use super::envelope::{id_bytes, uuid_bytes_from_id};
use super::frame::{Frame, FrameModel};
use crate::text::{opt_view, parse_unsigned, unsigned_numeral};
use vstd::prelude::*;

verus! {

/// The longest body, unless configured.
pub const MAX_HTTP_BODY_BYTES: usize = 536870912;

/// The longest message of a channel, unless configured.
pub const DEFAULT_MAX_WS_MESSAGE_BYTES: usize = 8388608;

/// The version of the protocol.
pub const TUNNEL_PROTOCOL_VERSION: u8 = 2;

/// The longest chunk, unless configured.
pub const DEFAULT_STREAM_CHUNK_BYTES: usize = 65536;

/// The shortest limit on chunks that a peer may ask for.
pub const MIN_STREAM_CHUNK_BYTES: usize = 1024;

/// How many exchanges may be open, unless configured.
pub const DEFAULT_MAX_INFLIGHT: usize = 16;

/// How many chunks may be on their way, unless configured.
pub const DEFAULT_STREAM_WINDOW_FRAMES: usize = 16;

/// The longest body that goes in one frame, unless configured.
pub const FAST_PATH_BODY_BYTES: usize = 65536;

/// A body that travels in one control frame stays below this size, so that the
/// frame fits the control channel.
pub const MAX_V1_BODY_BYTES: usize = 5242880;

/// The longest body that can be configured.
pub const MAX_CONFIGURED_BODY_BYTES: usize = 1073741824;

/// The longest message that can be configured.
pub const MAX_CONFIGURED_WS_MESSAGE_BYTES: usize = 8388608;

/// The longest chunk that can be configured.
pub const MAX_CONFIGURED_STREAM_CHUNK_BYTES: usize = 65536;

/// The most exchanges that can be configured.
pub const MAX_CONFIGURED_INFLIGHT: usize = 1024;

/// The largest window that can be configured.
pub const MAX_CONFIGURED_WINDOW_FRAMES: usize = 1024;

/// Frames that may wait for a connection's writer.
pub const OUTBOUND_QUEUE_FRAMES: usize = 512;

/// Places of that queue which data frames leave to control frames.
pub const OUTBOUND_CONTROL_RESERVE: usize = 32;

/// The longest text of a control frame.
pub const CONTROL_WS_MESSAGE_BYTES: usize = 8388608;

// ───────────────────────── settings ─────────────────────────

/// The smaller of two numbers.
pub open spec fn least(a: int, b: int) -> int {
    if a <= b {
        a
    } else {
        b
    }
}

/// The larger of two numbers.
pub open spec fn greatest(a: int, b: int) -> int {
    if a >= b {
        a
    } else {
        b
    }
}

/// A setting that must be a positive numeral: capped at `maximum`, and
/// `default` where it is missing or no such numeral.
pub open spec fn positive_setting(
    raw: Option<Seq<char>>,
    default: usize,
    maximum: usize,
) -> int {
    match raw {
        Some(s) => match unsigned_numeral(s, usize::MAX as nat) {
            Some(n) => if n > 0 {
                least(n as int, maximum as int)
            } else {
                default as int
            },
            None => default as int,
        },
        None => default as int,
    }
}

/// Reads a setting that must be a positive numeral.
pub fn positive_env_usize(raw: &Option<String>, default: usize, maximum: usize) -> (r: usize)
    ensures
        r == positive_setting(opt_view(*raw), default, maximum),
{
    match raw {
        Some(s) => match parse_unsigned(s.as_str(), usize::MAX as u64) {
            Some(n) => {
                if n == 0 {
                    default
                } else if n as usize <= maximum {
                    n as usize
                } else {
                    maximum
                }
            },
            None => default,
        },
        None => default,
    }
}

/// A length of time.
#[derive(Debug, Clone, Copy, PartialEq, Eq, Structural)]
pub struct Span {
    pub secs: u64,
    pub nanos: u32,
}

/// The time that `std::time::Duration::try_from_secs_f64` makes of the floating-point
/// number that a text writes, where both succeed.
pub uninterp spec fn duration_of(raw: Seq<char>) -> Option<(u64, u32)>;

/// `std::time::Duration::try_from_secs_f64` of the number that the text
/// writes: nothing where the text is no number, or the number is negative, not
/// finite or too large for a duration. The nanoseconds stay below one second.
#[verifier::external_body]
fn seconds_text(raw: &str) -> (r: Option<(u64, u32)>)
    ensures
        r == duration_of(raw@),
        r matches Some((_, nanos)) ==> nanos < 1_000_000_000,
{
    let d = std::time::Duration::try_from_secs_f64(raw.parse().ok()?).ok()?;
    Some((d.as_secs(), d.subsec_nanos()))
}

/// A duration that is longer than nothing.
pub open spec fn positive_span(d: Option<(u64, u32)>) -> Option<Span> {
    match d {
        Some((secs, nanos)) => if secs == 0 && nanos == 0 {
            None
        } else {
            Some(Span { secs, nanos })
        },
        None => None,
    }
}

/// Keeps a duration only where it is longer than nothing.
pub fn longer_than_zero(d: Option<(u64, u32)>) -> (r: Option<Span>)
    ensures
        r == positive_span(d),
{
    match d {
        Some((secs, nanos)) => {
            if secs == 0 && nanos == 0 {
                None
            } else {
                Some(Span { secs, nanos })
            }
        },
        None => None,
    }
}

/// A positive number of seconds, whole or fractional.
pub fn parse_positive_duration_seconds(raw: &str) -> (r: Option<Span>)
    ensures
        r == positive_span(duration_of(raw@)),
{
    longer_than_zero(seconds_text(raw))
}

/// The default time that one HTTP exchange may take: ten minutes.
pub open spec fn default_http_timeout() -> Span {
    Span { secs: 600, nanos: 0 }
}

/// The timeout that a setting gives, or ten minutes.
pub open spec fn http_timeout(raw: Option<Seq<char>>) -> Span {
    match raw {
        Some(s) => match positive_span(duration_of(s)) {
            Some(span) => span,
            None => default_http_timeout(),
        },
        None => default_http_timeout(),
    }
}

/// The time that an exchange may take: as configured, or ten minutes.
pub fn http_timeout_from_raw(raw: Option<&str>) -> (r: Span)
    ensures
        r == http_timeout(
            match raw {
                Some(s) => Some(s@),
                None => None,
            },
        ),
{
    match raw {
        Some(s) => match parse_positive_duration_seconds(s) {
            Some(span) => span,
            None => Span { secs: 600, nanos: 0 },
        },
        None => Span { secs: 600, nanos: 0 },
    }
}

impl Span {
    /// The length in nanoseconds.
    pub open spec fn total_nanos(self) -> nat {
        (self.secs * 1_000_000_000 + self.nanos) as nat
    }

    /// The length in nanoseconds, or the largest `u64` where that is shorter.
    pub fn as_nanos(self) -> (r: u64)
        ensures
            r == least(self.total_nanos() as int, u64::MAX as int),
    {
        let n: u128 = self.secs as u128 * 1_000_000_000 + self.nanos as u128;
        if n <= 0xffff_ffff_ffff_ffff {
            n as u64
        } else {
            u64::MAX
        }
    }
}

/// The raw texts of the tunnel settings.
pub struct TunnelSettings {
    pub http_timeout: Option<String>,
    pub protocol_version: Option<String>,
    pub max_body_size: Option<String>,
    pub stream_chunk_bytes: Option<String>,
    pub max_ws_message_size: Option<String>,
    pub max_inflight: Option<String>,
    pub stream_window_frames: Option<String>,
    pub fast_path_body_bytes: Option<String>,
}

/// The settings in force.
#[derive(Debug, Clone, Copy, PartialEq, Eq)]
pub struct TunnelConfig {
    pub http_timeout: Span,
    pub protocol_version: u8,
    pub max_body_bytes: usize,
    pub stream_chunk_bytes: usize,
    pub max_ws_message_bytes: usize,
    pub max_inflight: usize,
    pub stream_window_frames: usize,
    pub fast_path_body_bytes: u64,
}

impl TunnelConfig {
    /// Every limit is positive and within its maximum.
    pub open spec fn wf(self) -> bool {
        &&& 1 <= self.protocol_version <= 2
        &&& 1 <= self.max_body_bytes <= MAX_CONFIGURED_BODY_BYTES
        &&& MIN_STREAM_CHUNK_BYTES <= self.stream_chunk_bytes <= MAX_CONFIGURED_STREAM_CHUNK_BYTES
        &&& 1 <= self.max_ws_message_bytes <= MAX_CONFIGURED_WS_MESSAGE_BYTES
        &&& 1 <= self.max_inflight <= MAX_CONFIGURED_INFLIGHT
        &&& 1 <= self.stream_window_frames <= MAX_CONFIGURED_WINDOW_FRAMES
    }

    /// The settings that raw texts give.
    pub fn from_settings(raw: &TunnelSettings) -> (r: TunnelConfig)
        ensures
            r.wf(),
            r.http_timeout == http_timeout(opt_view(raw.http_timeout)),
            r.protocol_version == positive_setting(opt_view(raw.protocol_version), 2, 2),
            r.max_body_bytes == positive_setting(
                opt_view(raw.max_body_size),
                MAX_HTTP_BODY_BYTES,
                MAX_CONFIGURED_BODY_BYTES,
            ),
            r.stream_chunk_bytes == greatest(
                positive_setting(
                    opt_view(raw.stream_chunk_bytes),
                    DEFAULT_STREAM_CHUNK_BYTES,
                    MAX_CONFIGURED_STREAM_CHUNK_BYTES,
                ),
                MIN_STREAM_CHUNK_BYTES as int,
            ),
            r.max_ws_message_bytes == positive_setting(
                opt_view(raw.max_ws_message_size),
                DEFAULT_MAX_WS_MESSAGE_BYTES,
                MAX_CONFIGURED_WS_MESSAGE_BYTES,
            ),
            r.max_inflight == positive_setting(
                opt_view(raw.max_inflight),
                DEFAULT_MAX_INFLIGHT,
                MAX_CONFIGURED_INFLIGHT,
            ),
            r.stream_window_frames == positive_setting(
                opt_view(raw.stream_window_frames),
                DEFAULT_STREAM_WINDOW_FRAMES,
                MAX_CONFIGURED_WINDOW_FRAMES,
            ),
            r.fast_path_body_bytes == positive_setting(
                opt_view(raw.fast_path_body_bytes),
                FAST_PATH_BODY_BYTES,
                least(r.max_body_bytes as int, MAX_V1_BODY_BYTES as int) as usize,
            ),
    {
        let timeout = match &raw.http_timeout {
            Some(s) => http_timeout_from_raw(Some(s.as_str())),
            None => http_timeout_from_raw(None),
        };
        let version: usize = positive_env_usize(&raw.protocol_version, 2, 2);
        let body: usize = positive_env_usize(
            &raw.max_body_size,
            MAX_HTTP_BODY_BYTES,
            MAX_CONFIGURED_BODY_BYTES,
        );
        let chunk: usize = positive_env_usize(
            &raw.stream_chunk_bytes,
            DEFAULT_STREAM_CHUNK_BYTES,
            MAX_CONFIGURED_STREAM_CHUNK_BYTES,
        );
        let fast_limit: usize = if body <= MAX_V1_BODY_BYTES {
            body
        } else {
            MAX_V1_BODY_BYTES
        };
        TunnelConfig {
            http_timeout: timeout,
            protocol_version: version as u8,
            max_body_bytes: body,
            stream_chunk_bytes: if chunk >= MIN_STREAM_CHUNK_BYTES {
                chunk
            } else {
                MIN_STREAM_CHUNK_BYTES
            },
            max_ws_message_bytes: positive_env_usize(
                &raw.max_ws_message_size,
                DEFAULT_MAX_WS_MESSAGE_BYTES,
                MAX_CONFIGURED_WS_MESSAGE_BYTES,
            ),
            max_inflight: positive_env_usize(
                &raw.max_inflight,
                DEFAULT_MAX_INFLIGHT,
                MAX_CONFIGURED_INFLIGHT,
            ),
            stream_window_frames: positive_env_usize(
                &raw.stream_window_frames,
                DEFAULT_STREAM_WINDOW_FRAMES,
                MAX_CONFIGURED_WINDOW_FRAMES,
            ),
            fast_path_body_bytes: positive_env_usize(
                &raw.fast_path_body_bytes,
                FAST_PATH_BODY_BYTES,
                fast_limit,
            ) as u64,
        }
    }

    /// The hello frame that the server opens a connection with.
    pub open spec fn hello_model(self) -> FrameModel {
        FrameModel::Hello {
            protocol_version: self.protocol_version,
            max_stream_chunk: self.stream_chunk_bytes,
            max_inflight: self.max_inflight,
            stream_window_frames: self.stream_window_frames,
            max_body_size: self.max_body_bytes,
            max_ws_message_size: self.max_ws_message_bytes,
            resume: true,
            session_id: None,
        }
    }

    /// The frame that opens a connection.
    pub fn hello(&self) -> (r: Frame)
        ensures
            r@ == self.hello_model(),
    {
        Frame::Hello {
            protocol_version: self.protocol_version,
            max_stream_chunk: self.stream_chunk_bytes,
            max_inflight: self.max_inflight,
            stream_window_frames: self.stream_window_frames,
            max_body_size: self.max_body_bytes,
            max_ws_message_size: self.max_ws_message_bytes,
            resume: true,
            session_id: None,
        }
    }
}

impl Default for TunnelConfig {
    /// The settings in force where nothing is set.
    fn default() -> (r: TunnelConfig)
        ensures
            r.wf(),
            r == (TunnelConfig {
                http_timeout: default_http_timeout(),
                protocol_version: 2,
                max_body_bytes: MAX_HTTP_BODY_BYTES,
                stream_chunk_bytes: DEFAULT_STREAM_CHUNK_BYTES,
                max_ws_message_bytes: DEFAULT_MAX_WS_MESSAGE_BYTES,
                max_inflight: DEFAULT_MAX_INFLIGHT,
                stream_window_frames: DEFAULT_STREAM_WINDOW_FRAMES,
                fast_path_body_bytes: 65536,
            }),
    {
        TunnelConfig {
            http_timeout: Span { secs: 600, nanos: 0 },
            protocol_version: 2,
            max_body_bytes: MAX_HTTP_BODY_BYTES,
            stream_chunk_bytes: DEFAULT_STREAM_CHUNK_BYTES,
            max_ws_message_bytes: DEFAULT_MAX_WS_MESSAGE_BYTES,
            max_inflight: DEFAULT_MAX_INFLIGHT,
            stream_window_frames: DEFAULT_STREAM_WINDOW_FRAMES,
            fast_path_body_bytes: 65536,
        }
    }
}

// ───────────────────────── negotiation ─────────────────────────

/// The limits in force on a connection.
#[derive(Debug, Clone, Copy, PartialEq, Eq, Structural)]
pub struct NegotiatedProtocol {
    pub max_stream_chunk: usize,
    pub max_inflight: usize,
    pub stream_window_frames: usize,
    pub max_body_size: usize,
    pub max_ws_message_size: usize,
    pub resumable: bool,
}

impl NegotiatedProtocol {
    /// Every limit is positive and within what `c` allows.
    pub open spec fn within(self, c: TunnelConfig) -> bool {
        &&& MIN_STREAM_CHUNK_BYTES <= self.max_stream_chunk <= c.stream_chunk_bytes
        &&& 1 <= self.max_inflight <= c.max_inflight
        &&& 1 <= self.stream_window_frames <= c.stream_window_frames
        &&& 1 <= self.max_body_size <= c.max_body_bytes
        &&& 1 <= self.max_ws_message_size <= c.max_ws_message_bytes
    }
}

/// Whether a peer's hello opens streaming.
pub open spec fn acceptable(hello: FrameModel, c: TunnelConfig) -> bool {
    match hello {
        FrameModel::Hello {
            protocol_version,
            max_stream_chunk,
            max_inflight,
            stream_window_frames,
            max_body_size,
            max_ws_message_size,
            ..
        } => {
            &&& c.protocol_version >= 2
            &&& protocol_version >= 2
            &&& max_stream_chunk >= 1024
            &&& max_inflight > 0
            &&& stream_window_frames > 0
            &&& max_body_size > 0
            &&& max_ws_message_size > 0
        },
        _ => false,
    }
}

/// The session that a peer asks to resume, where it names a valid one.
pub open spec fn requested_session(hello: FrameModel) -> Option<Seq<char>> {
    match hello {
        FrameModel::Hello { resume, session_id, .. } => if resume && session_id is Some && id_bytes(
            session_id->0,
        ) is Some {
            session_id
        } else {
            None
        },
        _ => None,
    }
}

/// The window that leaves room for all streams of a connection in the queue
/// of its writer.
pub open spec fn window_share(inflight: int) -> int {
    greatest(480int / inflight, 1)
}

/// The limits that a peer's hello and the own settings agree on: the smaller
/// of each, the window also within its share of the queue.
pub open spec fn agreed(hello: FrameModel, c: TunnelConfig) -> NegotiatedProtocol {
    match hello {
        FrameModel::Hello {
            max_stream_chunk,
            max_inflight,
            stream_window_frames,
            max_body_size,
            max_ws_message_size,
            ..
        } => {
            let inflight = least(max_inflight as int, c.max_inflight as int);
            NegotiatedProtocol {
                max_stream_chunk: least(
                    max_stream_chunk as int,
                    c.stream_chunk_bytes as int,
                ) as usize,
                max_inflight: inflight as usize,
                stream_window_frames: least(
                    least(stream_window_frames as int, c.stream_window_frames as int),
                    window_share(inflight),
                ) as usize,
                max_body_size: least(max_body_size as int, c.max_body_bytes as int) as usize,
                max_ws_message_size: least(
                    max_ws_message_size as int,
                    c.max_ws_message_bytes as int,
                ) as usize,
                resumable: requested_session(hello) is Some,
            }
        },
        _ => arbitrary(),
    }
}

/// Agreed limits are positive, never above either side's, and all windows
/// together fit the data places of the connection's queue (or are one each).
pub proof fn agreed_within_both(hello: FrameModel, c: TunnelConfig)
    requires
        c.wf(),
        acceptable(hello, c),
    ensures
        agreed(hello, c).within(c),
        agreed(hello, c).max_stream_chunk <= hello->Hello_max_stream_chunk,
        agreed(hello, c).max_inflight <= hello->Hello_max_inflight,
        agreed(hello, c).stream_window_frames <= hello->Hello_stream_window_frames,
        agreed(hello, c).max_body_size <= hello->Hello_max_body_size,
        agreed(hello, c).max_ws_message_size <= hello->Hello_max_ws_message_size,
        agreed(hello, c).stream_window_frames == 1 || agreed(hello, c).stream_window_frames
            * agreed(hello, c).max_inflight <= OUTBOUND_QUEUE_FRAMES - OUTBOUND_CONTROL_RESERVE,
{
    let p = agreed(hello, c);
    let n = p.max_inflight as int;
    let w = p.stream_window_frames as int;
    if w > 1 {
        assert(w * n <= 480) by (nonlinear_arith)
            requires
                n >= 1,
                1 < w <= (if 480int / n >= 1 { 480int / n } else { 1 }),
        ;
    }
}

fn smaller(a: usize, b: usize) -> (r: usize)
    ensures
        r == least(a as int, b as int),
{
    if a <= b {
        a
    } else {
        b
    }
}

/// The agreed limits and the session to resume, where a hello opens streaming.
pub fn negotiate(hello: &Frame, c: &TunnelConfig) -> (r: Option<
    (NegotiatedProtocol, Option<String>),
>)
    requires
        c.wf(),
    ensures
        match r {
            Some((protocol, session)) => acceptable(hello@, *c) && protocol == agreed(hello@, *c)
                && opt_view(session) == requested_session(hello@),
            None => !acceptable(hello@, *c),
        },
{
    match hello {
        Frame::Hello {
            protocol_version,
            max_stream_chunk,
            max_inflight,
            stream_window_frames,
            max_body_size,
            max_ws_message_size,
            resume,
            session_id,
        } => {
            if !(c.protocol_version >= TUNNEL_PROTOCOL_VERSION && *protocol_version
                >= TUNNEL_PROTOCOL_VERSION && *max_stream_chunk >= MIN_STREAM_CHUNK_BYTES
                && *max_inflight > 0 && *stream_window_frames > 0 && *max_body_size > 0
                && *max_ws_message_size > 0) {
                return None;
            }
            let session: Option<String> = if *resume {
                match session_id {
                    Some(s) => {
                        if uuid_bytes_from_id(s.as_str()).is_ok() {
                            Some(s.clone())
                        } else {
                            None
                        }
                    },
                    None => None,
                }
            } else {
                None
            };
            let inflight: usize = smaller(*max_inflight, c.max_inflight);
            let room: usize = OUTBOUND_QUEUE_FRAMES - OUTBOUND_CONTROL_RESERVE;
            let share: usize = room / inflight;
            let share: usize = if share >= 1 {
                share
            } else {
                1
            };
            let protocol = NegotiatedProtocol {
                max_stream_chunk: smaller(*max_stream_chunk, c.stream_chunk_bytes),
                max_inflight: inflight,
                stream_window_frames: smaller(
                    smaller(*stream_window_frames, c.stream_window_frames),
                    share,
                ),
                max_body_size: smaller(*max_body_size, c.max_body_bytes),
                max_ws_message_size: smaller(*max_ws_message_size, c.max_ws_message_bytes),
                resumable: session.is_some(),
            };
            Some((protocol, session))
        },
        _ => None,
    }
}

} // verus!
