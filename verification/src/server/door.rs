//! Admission of new connections: who may connect, reading the header, and
//! what becomes of the connection.
//!
//! Peers are checked before any byte of theirs is read.
use super::protocol::{classify, header_cfg, intro, Intro};
use crate::common::{law_cfg_frame, AudioCfg, HDR_SZ};
use crate::text::{parse_u32, u32_value};
use vstd::prelude::*;

verus! {

/// Nanoseconds within which a header has to arrive.
pub const HEADER_TIMEOUT_NS: u64 = 2_000_000_000;

/// Milliseconds between two attempts to read more of a header.
pub const HEADER_RETRY_MS: u64 = 5;

/// The user that may use the server: the one who ran `sudo` to start it, or
/// else the server's own.
pub fn trusted_uid(sudo_uid: Option<&str>, euid: u32) -> (uid: u32)
    ensures
        uid == match sudo_uid {
            Some(s) => match u32_value(s@) {
                Some(u) => u,
                None => euid,
            },
            None => euid,
        },
{
    match sudo_uid {
        Some(s) => match parse_u32(s) {
            Some(u) => u,
            None => euid,
        },
        None => euid,
    }
}

/// Whether a peer may connect: root and the trusted user may, a peer that
/// cannot be told may not.
pub open spec fn allowed(peer: Option<u32>, trusted: u32) -> bool {
    peer matches Some(uid) && (uid == 0 || uid == trusted)
}

/// Whether a peer may connect.
pub fn peer_allowed(peer: Option<u32>, trusted: u32) -> (b: bool)
    ensures
        b == allowed(peer, trusted),
{
    match peer {
        Some(uid) => uid == 0 || uid == trusted,
        None => false,
    }
}

/// Why a connection is dropped.
#[derive(Clone, Copy, Debug, PartialEq, Eq, Structural)]
pub enum Refusal {
    Untrusted,
    /// The peer closed before its header was complete.
    Eof,
    /// The header did not arrive in time.
    Timeout,
    /// Reading failed.
    Io,
    BadHeader,
    /// Only control clients are served here.
    ControlOnly,
    /// As many streams are active as are allowed.
    Full,
}

/// What to do with a connection.
#[derive(Clone, Copy, Debug, PartialEq, Eq, Structural)]
pub enum DoorAction {
    /// Read up to so many bytes.
    Read(usize),
    /// Wait so many milliseconds, and read again.
    Retry(u64),
    ServeControl,
    ServeStream(AudioCfg),
    Drop(Refusal),
}

/// How many streams there are and may be; `None` where only control clients
/// are served.
#[derive(Clone, Copy, Debug, PartialEq, Eq, Structural)]
pub struct Capacity {
    pub live: usize,
    pub max: usize,
}

/// What a complete header leads to.
pub open spec fn decision(h: Seq<u8>, capacity: Option<Capacity>) -> DoorAction {
    match intro(h) {
        Intro::Control => DoorAction::ServeControl,
        Intro::Bad => match capacity {
            Some(_) => DoorAction::Drop(Refusal::BadHeader),
            None => DoorAction::Drop(Refusal::ControlOnly),
        },
        Intro::Stream(cfg) => match capacity {
            Some(c) => if c.live >= c.max {
                DoorAction::Drop(Refusal::Full)
            } else {
                DoorAction::ServeStream(cfg)
            },
            None => DoorAction::Drop(Refusal::ControlOnly),
        },
    }
}

/// A connection whose header is being read.
pub struct Door {
    got: Vec<u8>,
    deadline: u64,
}

impl Door {
    /// Header bytes so far.
    pub closed spec fn bytes(&self) -> Seq<u8> {
        self.got@
    }

    /// When to give up.
    pub closed spec fn deadline_spec(&self) -> u64 {
        self.deadline
    }

    /// The header is not complete.
    pub open spec fn wf(&self) -> bool {
        self.bytes().len() < HDR_SZ
    }

    /// A peer has connected at time `now`: only an allowed one gets a door.
    pub fn arrive(peer: Option<u32>, trusted: u32, now: u64) -> (r: Result<Self, Refusal>)
        ensures
            r is Ok <==> allowed(peer, trusted),
            r matches Ok(d) ==> d.wf() && d.bytes() == Seq::<u8>::empty() && d.deadline_spec()
                == if now > u64::MAX - HEADER_TIMEOUT_NS {
                u64::MAX
            } else {
                (now + HEADER_TIMEOUT_NS) as u64
            },
            r matches Err(e) ==> e == Refusal::Untrusted,
    {
        if !peer_allowed(peer, trusted) {
            return Err(Refusal::Untrusted);
        }
        let deadline: u64 = if now > u64::MAX - HEADER_TIMEOUT_NS {
            u64::MAX
        } else {
            now + HEADER_TIMEOUT_NS
        };
        Ok(Door { got: Vec::new(), deadline })
    }

    /// The first action.
    pub fn begin(&self) -> (a: DoorAction)
        requires
            self.wf(),
        ensures
            a == DoorAction::Read((12 - self.bytes().len()) as usize),
    {
        DoorAction::Read(HDR_SZ - self.got.len())
    }

    /// A read gave `data`; nothing means that the peer has closed.
    pub fn on_data(&mut self, data: &[u8], capacity: Option<Capacity>) -> (a: DoorAction)
        requires
            old(self).wf(),
            old(self).bytes().len() + data@.len() <= HDR_SZ,
        ensures
            final(self).deadline_spec() == old(self).deadline_spec(),
            final(self).bytes() == old(self).bytes() + data@,
            a is Read ==> final(self).wf(),
            a == if data@.len() == 0 {
                DoorAction::Drop(Refusal::Eof)
            } else if old(self).bytes().len() + data@.len() < 12 {
                DoorAction::Read((12 - old(self).bytes().len() - data@.len()) as usize)
            } else {
                decision(old(self).bytes() + data@, capacity)
            },
    {
        assert(self.got@ =~= old(self).bytes());
        self.got.extend_from_slice(data);
        assert(self.got@ =~= old(self).bytes() + data@);
        if data.len() == 0 {
            return DoorAction::Drop(Refusal::Eof);
        }
        if self.got.len() < HDR_SZ {
            return DoorAction::Read(HDR_SZ - self.got.len());
        }
        let g = &self.got;
        let h: [u8; 12] = [
            g[0],
            g[1],
            g[2],
            g[3],
            g[4],
            g[5],
            g[6],
            g[7],
            g[8],
            g[9],
            g[10],
            g[11],
        ];
        assert(h@ =~= self.got@);
        match classify(&h) {
            Intro::Control => DoorAction::ServeControl,
            Intro::Bad => match capacity {
                Some(_) => DoorAction::Drop(Refusal::BadHeader),
                None => DoorAction::Drop(Refusal::ControlOnly),
            },
            Intro::Stream(cfg) => match capacity {
                Some(c) => {
                    if c.live >= c.max {
                        DoorAction::Drop(Refusal::Full)
                    } else {
                        DoorAction::ServeStream(cfg)
                    }
                },
                None => DoorAction::Drop(Refusal::ControlOnly),
            },
        }
    }

    /// A read found nothing yet: the header may still be on its way.
    pub fn on_busy(&self, now: u64) -> (a: DoorAction)
        ensures
            a == if now > self.deadline_spec() {
                DoorAction::Drop(Refusal::Timeout)
            } else {
                DoorAction::Retry(HEADER_RETRY_MS)
            },
    {
        if now > self.deadline {
            DoorAction::Drop(Refusal::Timeout)
        } else {
            DoorAction::Retry(HEADER_RETRY_MS)
        }
    }

    /// A read failed.
    pub fn on_error(&self) -> (a: DoorAction)
        ensures
            a == DoorAction::Drop(Refusal::Io),
    {
        DoorAction::Drop(Refusal::Io)
    }
}

/// No stream is admitted beyond the limit, and control clients are served
/// whatever the load.
pub proof fn law_capacity(h: Seq<u8>, c: Capacity)
    requires
        h.len() == HDR_SZ,
    ensures
        decision(h, Some(c)) is ServeStream ==> c.live < c.max,
        decision(h, Some(c)) is ServeControl <==> decision(h, None) is ServeControl,
        !(decision(h, None) is ServeStream),
        c.live < c.max && (intro(h) matches Intro::Stream(cfg)) ==> decision(h, Some(c))
            == DoorAction::ServeStream(header_cfg(h)->0),
{
}

/// Root and the trusted user may connect, and nobody else.
pub proof fn law_who_may_connect(uid: u32, trusted: u32)
    ensures
        allowed(Some(uid), trusted) <==> uid == trusted || uid == 0,
        !allowed(None, trusted),
{
}

/// What becomes of a connection is in its header: a rate of zero is a control
/// client; else the rate, one to eight channels and one of two sample formats
/// make a stream, which is served with just those where there is room.
pub proof fn law_header_decides(h: Seq<u8>, capacity: Option<Capacity>)
    requires
        h.len() == 12,
    ensures
        ({
            let rate = h[0] + 256 * (h[1] + 256 * (h[2] + 256 * h[3]));
            let channels = h[4] + 256 * h[5];
            let format = h[6] + 256 * h[7];
            let good = 0 < channels < 9 && (format == 2 || format == 14);
            match decision(h, capacity) {
                DoorAction::ServeControl => rate == 0,
                DoorAction::ServeStream(c) => {
                    &&& rate != 0 && good
                    &&& c.rate == rate && c.channels == channels && c.format == format
                    &&& c.frame_size == channels * (if format == 2 { 2int } else { 4 })
                    &&& capacity matches Some(room) && room.live < room.max
                },
                DoorAction::Drop(Refusal::ControlOnly) => rate != 0 && capacity is None,
                DoorAction::Drop(Refusal::BadHeader) => rate != 0 && !good && capacity is Some,
                DoorAction::Drop(Refusal::Full) => rate != 0 && good && (capacity matches Some(
                    room,
                ) && room.max <= room.live),
                _ => false,
            }
        }),
{
    let channels = h[4] + 256 * h[5];
    let format = h[6] + 256 * h[7];
    if 1 <= channels <= 8 && (format == 2 || format == 14) {
        law_cfg_frame(
            (h[0] + 256 * (h[1] + 256 * (h[2] + 256 * h[3]))) as u32,
            channels as u32,
            format as u32,
        );
    }
}

/// A header has two seconds to arrive and is looked for every five milliseconds.
pub proof fn law_header_times()
    ensures
        HEADER_TIMEOUT_NS == 2 * 1_000_000_000,
        HEADER_RETRY_MS == 5,
{
}

} // verus!
