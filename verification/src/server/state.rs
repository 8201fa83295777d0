//! Shared server state and the control commands that act on it.
use super::protocol::Cmd;
use crate::bytes::{push_u32, u32_le};
use crate::text::{contains, decimal, decimal_i64, decimal_signed, decimal_u64, occurs, str_eq};
use vstd::prelude::*;
use vstd::utf8::encode_utf8;

verus! {

pub const OUT_SPEAKERS: u8 = 0;

pub const OUT_HEADPHONE: u8 = 1;

pub const OUT_UNKNOWN: u8 = 2;

/// The bit pattern of 100.0 as an `f32`.
pub const PERCENT_100: u32 = 0x42c8_0000;

/// Server state that streams and control clients share.
#[derive(Clone, Copy, Debug, PartialEq, Eq, Structural)]
pub struct ServerState {
    pub muted: bool,
    /// Streams in the mix.
    pub live_clients: usize,
    pub total_frames: u64,
    /// Last observed delay of the playback ring, in frames.
    pub last_delay_frames: i64,
    /// Volume in percent, as the bit pattern of an `f32`.
    pub volume: u32,
    /// Where the sound goes: one of the `OUT_` values.
    pub output_path: u8,
}

/// The state before anything has happened.
pub open spec fn initial_state() -> ServerState {
    ServerState {
        muted: false,
        live_clients: 0,
        total_frames: 0,
        last_delay_frames: (-1) as i64,
        volume: PERCENT_100,
        output_path: OUT_UNKNOWN,
    }
}

/// The name of an output route in status replies.
pub open spec fn route_name(v: u8) -> Seq<char> {
    if v == OUT_SPEAKERS {
        "speaker"@
    } else if v == OUT_HEADPHONE {
        "headphone"@
    } else {
        "unknown"@
    }
}

/// The name of an output route in status replies.
pub fn output_path_str(v: u8) -> (s: &'static str)
    ensures
        s@ == route_name(v),
{
    if v == OUT_SPEAKERS {
        "speaker"
    } else if v == OUT_HEADPHONE {
        "headphone"
    } else {
        "unknown"
    }
}

/// The route that a backend's description stands for.
pub open spec fn route_of(s: Seq<char>) -> u8 {
    if s == "speakers"@ {
        OUT_SPEAKERS
    } else if s == "headphone"@ {
        OUT_HEADPHONE
    } else {
        OUT_UNKNOWN
    }
}

/// Whether a bit pattern is a number that is not one.
pub open spec fn is_nan(bits: u32) -> bool {
    bits % 0x8000_0000 > 0x7f80_0000
}

/// A percentage limited to 0 through 100, over the bit patterns of `f32`:
/// patterns of positive numbers are ordered as the numbers are, and those of
/// negative numbers have the top bit set. Negative zero stays as it is; what is
/// not a number counts as zero.
pub open spec fn clamped_percent(bits: u32) -> u32 {
    if is_nan(bits) {
        0
    } else if bits == 0x8000_0000 {
        bits
    } else if bits > 0x8000_0000 {
        0
    } else if bits > PERCENT_100 {
        PERCENT_100
    } else {
        bits
    }
}

fn clamp_percent(bits: u32) -> (r: u32)
    ensures
        r == clamped_percent(bits),
{
    if bits % 0x8000_0000 > 0x7f80_0000 {
        0
    } else if bits == 0x8000_0000 {
        bits
    } else if bits > 0x8000_0000 {
        0
    } else if bits > PERCENT_100 {
        PERCENT_100
    } else {
        bits
    }
}

/// A volume always ends up as a number between 0 and 100 percent (zero of either
/// sign), whatever arrives; one that lies there stays as it is, and limiting it
/// again changes nothing.
pub proof fn law_volume_in_range(bits: u32)
    ensures
        clamped_percent(bits) <= PERCENT_100 || clamped_percent(bits) == 0x8000_0000,
        !is_nan(clamped_percent(bits)),
        bits <= PERCENT_100 || bits == 0x8000_0000 ==> clamped_percent(bits) == bits,
        clamped_percent(clamped_percent(bits)) == clamped_percent(bits),
{
}

/// "true" or "false".
pub open spec fn bool_text(b: bool) -> Seq<char> {
    if b {
        "true"@
    } else {
        "false"@
    }
}

fn bool_str(b: bool) -> (s: &'static str)
    ensures
        s@ == bool_text(b),
{
    if b {
        "true"
    } else {
        "false"
    }
}

/// The status document. `volume` is the volume in percent, written with three
/// decimals.
pub open spec fn status_text(st: ServerState, volume: Seq<char>) -> Seq<char> {
    "{\"muted\":"@ + bool_text(st.muted) + ",\"volume\":"@ + volume + ",\"active\":"@ + bool_text(
        st.live_clients > 0,
    ) + ",\"clients\":"@ + decimal(st.live_clients as nat) + ",\"total_frames\":"@ + decimal(
        st.total_frames as nat,
    ) + ",\"delay_frames\":"@ + decimal_signed(st.last_delay_frames as int) + ",\"output\":\""@
        + route_name(st.output_path) + "\"}"@
}

/// What a command asks for besides its effect on the state.
pub struct Applied {
    /// Set the mute LED.
    pub led: Option<bool>,
    /// Send this status document back.
    pub reply: Option<String>,
}

/// The state after a command. A flush concerns one stream and is a no-op here.
pub open spec fn applied_state(st: ServerState, c: Cmd) -> ServerState {
    match c {
        Cmd::Mute => ServerState { muted: true, ..st },
        Cmd::Unmute => ServerState { muted: false, ..st },
        Cmd::Volume(bits) => ServerState { volume: clamped_percent(bits), ..st },
        Cmd::Flush => st,
        Cmd::Status => st,
    }
}

impl ServerState {
    pub fn new() -> (s: Self)
        ensures
            s == initial_state(),
    {
        ServerState {
            muted: false,
            live_clients: 0,
            total_frames: 0,
            last_delay_frames: -1,
            volume: PERCENT_100,
            output_path: OUT_UNKNOWN,
        }
    }

    /// Record the output route.
    pub fn store_output_path(&mut self, s: &str)
        ensures
            *final(self) == (ServerState { output_path: route_of(s@), ..*old(self) }),
    {
        self.output_path = if str_eq(s, "speakers") {
            OUT_SPEAKERS
        } else if str_eq(s, "headphone") {
            OUT_HEADPHONE
        } else {
            OUT_UNKNOWN
        };
    }

    /// Set the volume in percent, limited to 0 through 100.
    pub fn set_volume(&mut self, percent: u32)
        ensures
            *final(self) == (ServerState { volume: clamped_percent(percent), ..*old(self) }),
    {
        self.volume = clamp_percent(percent);
    }

    /// Count frames that a stream has delivered. The count wraps.
    pub fn add_frames(&mut self, frames: u64)
        ensures
            *final(self) == (ServerState {
                total_frames: ((old(self).total_frames + frames) % 0x1_0000_0000_0000_0000) as u64,
                ..*old(self)
            }),
    {
        self.total_frames = self.total_frames.wrapping_add(frames);
    }

    /// The status document, given the volume in percent written with three
    /// decimals.
    pub fn status(&self, volume: &str) -> (s: String)
        ensures
            s@ == status_text(*self, volume@),
    {
        let mut s = "{\"muted\":".to_owned();
        s.append(bool_str(self.muted));
        s.append(",\"volume\":");
        s.append(volume);
        s.append(",\"active\":");
        s.append(bool_str(self.live_clients > 0));
        s.append(",\"clients\":");
        s.append(decimal_u64(self.live_clients as u64).as_str());
        s.append(",\"total_frames\":");
        s.append(decimal_u64(self.total_frames).as_str());
        s.append(",\"delay_frames\":");
        s.append(decimal_i64(self.last_delay_frames).as_str());
        s.append(",\"output\":\"");
        s.append(output_path_str(self.output_path));
        s.append("\"}");
        s
    }
}

impl Cmd {
    /// Apply the command to the shared state. `volume` is the current volume
    /// in percent, written with three decimals, for the status document.
    pub fn apply(self, st: &mut ServerState, volume: &str) -> (a: Applied)
        ensures
            *final(st) == applied_state(*old(st), self),
            a.led == match self {
                Cmd::Mute => Some(true),
                Cmd::Unmute => Some(false),
                _ => None,
            },
            a.reply is Some <==> self is Status,
            a.reply matches Some(s) ==> s@ == status_text(*old(st), volume@),
    {
        match self {
            Cmd::Mute => {
                st.muted = true;
                Applied { led: Some(true), reply: None }
            },
            Cmd::Unmute => {
                st.muted = false;
                Applied { led: Some(false), reply: None }
            },
            Cmd::Flush => Applied { led: None, reply: None },
            Cmd::Volume(bits) => {
                st.set_volume(bits);
                Applied { led: None, reply: None }
            },
            Cmd::Status => Applied { led: None, reply: Some(st.status(volume)) },
        }
    }
}

/// A muted server is unmuted by unmuting and stays muted under everything
/// else; no command touches the counters.
pub proof fn law_commands(st: ServerState, c: Cmd)
    ensures
        ({
            let t = applied_state(st, c);
            &&& t.muted == if c == Cmd::Mute {
                true
            } else if c == Cmd::Unmute {
                false
            } else {
                st.muted
            }
            &&& t.live_clients == st.live_clients
            &&& t.total_frames == st.total_frames
            &&& t.last_delay_frames == st.last_delay_frames
            &&& t.output_path == st.output_path
            &&& !(c is Volume) ==> t.volume == st.volume
        }),
{
}

/// A length-prefixed reply to the client.
pub fn write_status(body: &str) -> (out: Vec<u8>)
    requires
        encode_utf8(body@).len() <= u32::MAX,
    ensures
        out@ == u32_le(encode_utf8(body@).len() as u32) + encode_utf8(body@),
{
    let b = body.as_bytes();
    let mut out: Vec<u8> = Vec::new();
    push_u32(&mut out, b.len() as u32);
    out.extend_from_slice(b);
    assert(out@ =~= u32_le(encode_utf8(body@).len() as u32) + encode_utf8(body@));
    out
}

/// Whether a LED is a mute LED, by its name.
pub fn is_mute_led(name: &str) -> (b: bool)
    ensures
        b == occurs(name@, "::mute"@),
{
    contains(name, "::mute")
}

/// What to write to a mute LED's brightness: lit means muted.
pub fn set_mute_led(mute: bool) -> (s: &'static str)
    ensures
        s@ == if mute {
            "1"@
        } else {
            "0"@
        },
{
    if mute {
        "1"
    } else {
        "0"
    }
}

/// Volumes saturate: what is below zero or not a number becomes zero, what is
/// above 100 percent, infinity included, becomes 100 percent, and of two
/// volumes the louder stays the louder or equal.
pub proof fn law_volume_saturates(bits: u32, louder: u32)
    ensures
        bits > 0x8000_0000 ==> clamped_percent(bits) == 0,
        0x7f80_0000 < bits < 0x8000_0000 ==> clamped_percent(bits) == 0,
        0x42c8_0000 <= bits <= 0x7f80_0000 ==> clamped_percent(bits) == 0x42c8_0000,
        bits <= louder <= 0x7f80_0000 ==> clamped_percent(bits) <= clamped_percent(louder),
{
}

/// Setting the volume sets it for all that follows, until it is set again.
pub proof fn law_volume_is_kept(st: ServerState, bits: u32, c: Cmd)
    requires
        bits <= 0x42c8_0000,
        !(c is Volume),
    ensures
        applied_state(applied_state(st, Cmd::Volume(bits)), c).volume == bits,
        initial_state().volume == 0x42c8_0000 && !initial_state().muted,
{
}

/// A route is reported as what it is: what the backend calls "speakers" and
/// "headphone" is the speaker and the headphone, and all else is unknown.
pub proof fn law_route_is_reported(s: Seq<char>)
    ensures
        route_name(route_of(s)) == if s == "speakers"@ {
            "speaker"@
        } else if s == "headphone"@ {
            s
        } else {
            "unknown"@
        },
{
}

/// The status document names each value, and is JSON: the mute state and
/// whether there is a stream at all as words, the counters in decimal, the
/// route in quotes.
pub proof fn law_status_document(st: ServerState, volume: Seq<char>)
    ensures
        status_text(st, volume) == "{\"muted\":"@ + (if st.muted {
            "true"@
        } else {
            "false"@
        }) + ",\"volume\":"@ + volume + ",\"active\":"@ + (if st.live_clients == 0 {
            "false"@
        } else {
            "true"@
        }) + ",\"clients\":"@ + decimal(st.live_clients as nat) + ",\"total_frames\":"@ + decimal(
            st.total_frames as nat,
        ) + ",\"delay_frames\":"@ + (if st.last_delay_frames < 0 {
            seq!['-'] + decimal((-st.last_delay_frames) as nat)
        } else {
            decimal(st.last_delay_frames as nat)
        }) + ",\"output\":\""@ + route_name(st.output_path) + "\"}"@,
{
}

/// A server begins unmuted and without streams: nothing was played, no delay is
/// known, and neither is the route.
pub proof fn law_initial_state(volume: Seq<char>)
    ensures
        ({
            let s = initial_state();
            &&& !s.muted && s.live_clients == 0 && s.total_frames == 0 && s.last_delay_frames == -1
            &&& route_name(s.output_path) == "unknown"@
        }),
{
}

} // verus!
