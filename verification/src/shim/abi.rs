//! The byte layouts, texts and numbers that callers of the ALSA interface
//! see.
use super::pcm::SND_PCM_STATE_OPEN;
use crate::bytes::{
    as_signed32, as_signed64, as_unsigned32, as_unsigned64, fill_zero, get_i32, get_i64, get_u32,
    le32_at, le64_at, lemma_u32_round_trip, lemma_u64_round_trip, overwrite, pattern32,
    pattern64, push_u16, push_u32, push_u64, put_bytes, u16_le, u32_le, u64_le,
};
use crate::common::{pcm_format_bytes_spec, SHIM_BUFFER_FRAMES, SHIM_SERVER_FRAMES};
use crate::text::{decimal_i64, decimal_signed};
use vstd::prelude::*;

verus! {

pub const HW_PARAMS_SIZE: usize = 608;

pub const SW_PARAMS_SIZE: usize = 136;

pub const STATUS_SIZE: usize = 128;

// ── Formats ──
/// Sample width and physical width of a format, in bits. Formats that are not
/// known count as 16-bit.
pub open spec fn widths(fmt: i32) -> (i32, i32) {
    if fmt == 6 {
        (24, 32)
    } else if fmt == 10 || fmt == 14 {
        (32, 32)
    } else if fmt == 16 {
        (64, 64)
    } else {
        (16, 16)
    }
}

/// Sample width and physical width of a format, in bits.
pub fn format_widths(fmt: i32) -> (w: (i32, i32))
    ensures
        w == widths(fmt),
{
    match fmt {
        6 => (24, 32),
        10 => (32, 32),
        14 => (32, 32),
        16 => (64, 64),
        _ => (16, 16),
    }
}

/// Bytes of `count` samples of a format.
pub fn snd_pcm_format_size(fmt: i32, count: isize) -> (n: isize)
    requires
        isize::MIN <= count * (widths(fmt).1 as int / 8) <= isize::MAX,
    ensures
        n == count * (widths(fmt).1 as int / 8),
{
    let w: i32 = format_widths(fmt).1;
    let bytes: isize = if w == 64 {
        8
    } else if w == 32 {
        4
    } else {
        2
    };
    count * bytes
}

// ── Texts ──
/// The text of an error number, positive or negative.
pub open spec fn error_text(n: int) -> Seq<char> {
    let e = if n < 0 {
        -n
    } else {
        n
    };
    if e == 0 {
        "Success"@
    } else if e == 1 {
        "Operation not permitted"@
    } else if e == 2 {
        "No such file or directory"@
    } else if e == 5 {
        "Input/output error"@
    } else if e == 6 {
        "No such device or address"@
    } else if e == 9 {
        "Bad file descriptor"@
    } else if e == 11 {
        "Resource temporarily unavailable"@
    } else if e == 12 {
        "Cannot allocate memory"@
    } else if e == 13 {
        "Permission denied"@
    } else if e == 16 {
        "Device or resource busy"@
    } else if e == 19 {
        "No such device"@
    } else if e == 22 {
        "Invalid argument"@
    } else if e == 32 {
        "Broken pipe"@
    } else if e == 77 {
        "Function not implemented"@
    } else if e == 95 {
        "Operation not supported"@
    } else if e == 112 {
        "Host is down"@
    } else {
        "errno="@ + decimal_signed(n)
    }
}

/// The text of an error number, positive or negative.
pub fn snd_strerror(errnum: i32) -> (s: String)
    ensures
        s@ == error_text(errnum as int),
{
    let e: i64 = if errnum < 0 {
        -(errnum as i64)
    } else {
        errnum as i64
    };
    let known: Option<&'static str> = match e {
        0 => Some("Success"),
        1 => Some("Operation not permitted"),
        2 => Some("No such file or directory"),
        5 => Some("Input/output error"),
        6 => Some("No such device or address"),
        9 => Some("Bad file descriptor"),
        11 => Some("Resource temporarily unavailable"),
        12 => Some("Cannot allocate memory"),
        13 => Some("Permission denied"),
        16 => Some("Device or resource busy"),
        19 => Some("No such device"),
        22 => Some("Invalid argument"),
        32 => Some("Broken pipe"),
        77 => Some("Function not implemented"),
        95 => Some("Operation not supported"),
        112 => Some("Host is down"),
        _ => None,
    };
    match known {
        Some(t) => t.to_owned(),
        None => {
            let mut s = "errno=".to_owned();
            s.append(decimal_i64(errnum as i64).as_str());
            s
        },
    }
}

/// The name of a state.
pub open spec fn state_text(s: i32) -> Seq<char> {
    if s == 0 {
        "SND_PCM_STATE_OPEN"@
    } else if s == 1 {
        "SETUP"@
    } else if s == 2 {
        "PREPARED"@
    } else if s == 3 {
        "RUNNING"@
    } else if s == 4 {
        "XRUN"@
    } else if s == 5 {
        "DRAINING"@
    } else if s == 6 {
        "PAUSED"@
    } else if s == 7 {
        "SUSPENDED"@
    } else if s == 8 {
        "DISCONNECTED"@
    } else {
        "UNKNOWN"@
    }
}

/// The name of a state.
pub fn snd_pcm_state_name(s: i32) -> (t: &'static str)
    ensures
        t@ == state_text(s),
{
    match s {
        0 => "SND_PCM_STATE_OPEN",
        1 => "SETUP",
        2 => "PREPARED",
        3 => "RUNNING",
        4 => "XRUN",
        5 => "DRAINING",
        6 => "PAUSED",
        7 => "SUSPENDED",
        8 => "DISCONNECTED",
        _ => "UNKNOWN",
    }
}

// ── Hardware parameters ──
/// A parameter blob with defaults: all zeros but for the rate at offset 0 and
/// a two at offset 6.
pub open spec fn params_any() -> Seq<u8> {
    overwrite(
        overwrite(Seq::new(HW_PARAMS_SIZE as nat, |i: int| 0u8), 0, u32_le(48000)),
        6,
        u16_le(2),
    )
}

/// Fill a parameter blob with defaults.
pub fn snd_pcm_hw_params_any(mem: &mut [u8])
    requires
        old(mem)@.len() == HW_PARAMS_SIZE,
    ensures
        final(mem)@ == params_any(),
{
    fill_zero(mem);
    let mut rate: Vec<u8> = Vec::new();
    push_u32(&mut rate, 48000);
    assert(rate@ =~= u32_le(48000));
    put_bytes(mem, 0, rate.as_slice());
    let mut two: Vec<u8> = Vec::new();
    push_u16(&mut two, 2);
    assert(two@ =~= u16_le(2));
    put_bytes(mem, 6, two.as_slice());
}

/// Store a rate in a parameter blob.
pub fn params_set_rate(mem: &mut [u8], rate: u32)
    requires
        old(mem)@.len() == HW_PARAMS_SIZE,
    ensures
        final(mem)@ == overwrite(old(mem)@, 0, u32_le(rate)),
{
    let mut b: Vec<u8> = Vec::new();
    push_u32(&mut b, rate);
    assert(b@ =~= u32_le(rate));
    put_bytes(mem, 0, b.as_slice());
}

/// The rate in a parameter blob; 48000 where there is none.
pub open spec fn params_rate(mem: Option<Seq<u8>>) -> u32 {
    match mem {
        Some(m) => if le32_at(m, 0) == 0 {
            48000
        } else {
            le32_at(m, 0) as u32
        },
        None => 48000,
    }
}

/// The bytes of an optional blob.
pub open spec fn opt_bytes(mem: Option<&[u8]>) -> Option<Seq<u8>> {
    match mem {
        Some(m) => Some(m@),
        None => None,
    }
}

/// The rate in a parameter blob; 48000 where there is none.
pub fn snd_pcm_hw_params_get_rate(mem: Option<&[u8]>) -> (r: u32)
    requires
        mem matches Some(m) ==> m@.len() == HW_PARAMS_SIZE,
    ensures
        r == params_rate(opt_bytes(mem)),
{
    match mem {
        Some(m) => {
            let r: u32 = get_u32(m, 0);
            if r == 0 {
                48000
            } else {
                r
            }
        },
        None => 48000,
    }
}

/// Copy a parameter blob.
pub fn snd_pcm_hw_params_copy(dst: &mut [u8], src: &[u8])
    requires
        old(dst)@.len() == HW_PARAMS_SIZE,
        src@.len() == HW_PARAMS_SIZE,
    ensures
        final(dst)@ == src@,
{
    put_bytes(dst, 0, src);
    assert(dst@ =~= src@);
}

/// A rate that was stored is read back, unless it is zero; fresh parameters
/// have 48000.
pub proof fn law_rate_round_trip(mem: Seq<u8>, rate: u32)
    requires
        mem.len() == HW_PARAMS_SIZE,
    ensures
        params_rate(Some(overwrite(mem, 0, u32_le(rate)))) == if rate == 0 {
            48000
        } else {
            rate
        },
        params_rate(Some(params_any())) == 48000,
{
    let m = overwrite(mem, 0, u32_le(rate));
    assert(m.subrange(0, 4) =~= u32_le(rate));
    lemma_u32_round_trip(rate, m, 0);
    assert(params_any().subrange(0, 4) =~= u32_le(48000));
    lemma_u32_round_trip(48000, params_any(), 0);
}

// ── Status ──
/// A status blob: the state at offset 0, the delay at 56, the available frames
/// at 64, the rest zero.
pub open spec fn status_bytes(state: i32, delay: i64, avail: u64) -> Seq<u8> {
    let zero = Seq::new(STATUS_SIZE as nat, |i: int| 0u8);
    overwrite(
        overwrite(
            overwrite(zero, 0, u32_le(as_unsigned32(state as int) as u32)),
            56,
            u64_le(as_unsigned64(delay as int) as u64),
        ),
        64,
        u64_le(avail),
    )
}

/// Fill a status blob.
pub fn snd_pcm_status(mem: &mut [u8], state: i32, delay: i64, avail: u64)
    requires
        old(mem)@.len() == STATUS_SIZE,
    ensures
        final(mem)@ == status_bytes(state, delay, avail),
{
    fill_zero(mem);
    let mut s: Vec<u8> = Vec::new();
    push_u32(&mut s, pattern32(state));
    assert(s@ =~= u32_le(as_unsigned32(state as int) as u32));
    put_bytes(mem, 0, s.as_slice());
    let mut d: Vec<u8> = Vec::new();
    push_u64(&mut d, pattern64(delay));
    assert(d@ =~= u64_le(as_unsigned64(delay as int) as u64));
    put_bytes(mem, 56, d.as_slice());
    let mut a: Vec<u8> = Vec::new();
    push_u64(&mut a, avail);
    assert(a@ =~= u64_le(avail));
    put_bytes(mem, 64, a.as_slice());
}

/// The available frames in a status blob, as a signed number; without a blob,
/// what an idle device has.
pub open spec fn status_avail(mem: Option<Seq<u8>>) -> int {
    match mem {
        Some(m) => as_signed64(le64_at(m, 64)),
        None => SHIM_BUFFER_FRAMES - SHIM_SERVER_FRAMES,
    }
}

/// The delay in a status blob; zero without one.
pub open spec fn status_delay(mem: Option<Seq<u8>>) -> int {
    match mem {
        Some(m) => as_signed64(le64_at(m, 56)),
        None => 0,
    }
}

/// The state in a status blob; open without one.
pub open spec fn status_state(mem: Option<Seq<u8>>) -> int {
    match mem {
        Some(m) => as_signed32(le32_at(m, 0)),
        None => SND_PCM_STATE_OPEN as int,
    }
}

/// The available frames in a status blob.
pub fn snd_pcm_status_get_avail(mem: Option<&[u8]>) -> (n: i64)
    requires
        mem matches Some(m) ==> m@.len() == STATUS_SIZE,
    ensures
        n == status_avail(opt_bytes(mem)),
{
    match mem {
        Some(m) => get_i64(m, 64),
        None => (SHIM_BUFFER_FRAMES - SHIM_SERVER_FRAMES) as i64,
    }
}

/// The delay in a status blob.
pub fn snd_pcm_status_get_delay(mem: Option<&[u8]>) -> (n: i64)
    requires
        mem matches Some(m) ==> m@.len() == STATUS_SIZE,
    ensures
        n == status_delay(opt_bytes(mem)),
{
    match mem {
        Some(m) => get_i64(m, 56),
        None => 0,
    }
}

/// The state in a status blob.
pub fn snd_pcm_status_get_state(mem: Option<&[u8]>) -> (n: i32)
    requires
        mem matches Some(m) ==> m@.len() == STATUS_SIZE,
    ensures
        n == status_state(opt_bytes(mem)),
{
    match mem {
        Some(m) => get_i32(m, 0),
        None => SND_PCM_STATE_OPEN,
    }
}

/// What was put into a status blob is what is read from it.
pub proof fn law_status_round_trip(state: i32, delay: i64, avail: u64)
    requires
        avail < 0x8000_0000_0000_0000,
    ensures
        ({
            let m = Some(status_bytes(state, delay, avail));
            &&& status_state(m) == state
            &&& status_delay(m) == delay
            &&& status_avail(m) == avail
        }),
{
    let m = status_bytes(state, delay, avail);
    let s = as_unsigned32(state as int) as u32;
    let d = as_unsigned64(delay as int) as u64;
    assert(m.subrange(0, 4) =~= u32_le(s));
    assert(m.subrange(56, 64) =~= u64_le(d));
    assert(m.subrange(64, 72) =~= u64_le(avail));
    lemma_u32_round_trip(s, m, 0);
    lemma_u64_round_trip(d, m, 56);
    lemma_u64_round_trip(avail, m, 64);
}

// ── Channel map ──
/// Channels and positions of the one channel map there is: front left and
/// front right.
pub fn snd_pcm_get_chmap() -> (m: [u32; 3])
    ensures
        m@ == seq![2u32, 3, 4],
{
    let m: [u32; 3] = [2, 3, 4];
    assert(m@ =~= seq![2u32, 3, 4]);
    m
}

// ── Polling ──
/// How many descriptors are filled in: one, where there is room and a timer.
pub fn snd_pcm_poll_descriptors(room: u32, poll_fd: i32) -> (n: i32)
    ensures
        n == if room == 0 || poll_fd < 0 {
            0int
        } else {
            1
        },
{
    if room == 0 || poll_fd < 0 {
        0
    } else {
        1
    }
}

/// Whether the poll timer is to be drained and armed again: it exists and has
/// fired (the lowest bit of the events).
pub fn snd_pcm_poll_descriptors_revents(poll_fd: i32, revents: u16) -> (rearm: bool)
    ensures
        rearm == (poll_fd >= 0 && revents % 2 == 1),
{
    poll_fd >= 0 && revents % 2 == 1
}

// ── Output buffers ──
/// A buffer for debug output. Nothing is ever written to it.
pub struct SndOutput {
    pub buf: Vec<u8>,
    pub pos: usize,
}

impl SndOutput {
    /// An empty buffer.
    pub fn new() -> (o: Self)
        ensures
            o.buf@ == Seq::new(4096, |i: int| 0u8),
            o.pos == 0,
    {
        let buf: Vec<u8> = vec![0u8; 4096];
        assert(buf@ =~= Seq::new(4096, |i: int| 0u8));
        SndOutput { buf, pos: 0 }
    }

    /// Forget what was written.
    pub fn clear(&mut self)
        ensures
            final(self).buf == old(self).buf,
            final(self).pos == 0,
    {
        self.pos = 0;
    }
}

/// The widths that are reported agree with the bytes that samples take, and no
/// sample is wider than its container.
pub proof fn law_widths_agree(fmt: i32)
    ensures
        0 < widths(fmt).0 <= widths(fmt).1 <= 64,
        widths(fmt).1 % 8 == 0,
        fmt == 2 || fmt == 6 || fmt == 14 ==> widths(fmt).1 == 8 * pcm_format_bytes_spec(
            fmt as u16,
        ),
        fmt == 2 ==> widths(fmt).0 == 16,
        fmt == 6 ==> widths(fmt).0 == 24,
        fmt == 10 || fmt == 14 ==> widths(fmt) == (32i32, 32i32),
        fmt == 16 ==> widths(fmt) == (64i32, 64i32),
{
}

/// Where callers look in a status blob: the state in the first four bytes, the
/// delay in the eight from 56 on, the available frames in the eight from 64 on,
/// each least significant byte first, and zeros elsewhere.
pub proof fn law_status_layout(state: i32, delay: i64, avail: u64, i: int)
    ensures
        ({
            let m = status_bytes(state, delay, avail);
            &&& m.len() == 128
            &&& as_signed32(le32_at(m, 0)) == state
            &&& as_signed64(le64_at(m, 56)) == delay
            &&& le64_at(m, 64) == avail
            &&& 4 <= i < 56 || 72 <= i < 128 ==> m[i] == 0
        }),
        status_avail(None) == 4096,
        status_delay(None) == 0,
        status_state(None) == 0,
{
    let m = status_bytes(state, delay, avail);
    let s = as_unsigned32(state as int) as u32;
    let d = as_unsigned64(delay as int) as u64;
    assert(m.subrange(0, 4) =~= u32_le(s));
    assert(m.subrange(56, 64) =~= u64_le(d));
    assert(m.subrange(64, 72) =~= u64_le(avail));
    lemma_u32_round_trip(s, m, 0);
    lemma_u64_round_trip(d, m, 56);
    lemma_u64_round_trip(avail, m, 64);
}

/// Fresh parameters hold 48000 in their first four bytes and two at offset 6,
/// and zeros elsewhere.
pub proof fn law_params_layout(i: int)
    requires
        0 <= i < 608,
    ensures
        params_any().len() == 608,
        le32_at(params_any(), 0) == 48000,
        params_any()[6] == 2,
        i >= 4 && i != 6 ==> params_any()[i] == 0,
        params_rate(None) == 48000,
{
    assert(params_any().subrange(0, 4) =~= u32_le(48000));
    lemma_u32_round_trip(48000, params_any(), 0);
}

/// An error has the same text whichever sign its number has; one that is not
/// known is named by its number.
pub proof fn law_error_sign(n: int)
    requires
        n > 0,
    ensures
        error_text(n) == error_text(-n) || (error_text(n) == "errno="@ + decimal_signed(n)
            && error_text(-n) == "errno="@ + decimal_signed(-n)),
{
}

/// The texts of the errors that callers can meet, whichever sign they have.
pub proof fn law_error_texts(sign: int)
    requires
        sign == 1 || sign == -1,
    ensures
        error_text(0) == "Success"@,
        error_text(sign * 1) == "Operation not permitted"@,
        error_text(sign * 2) == "No such file or directory"@,
        error_text(sign * 5) == "Input/output error"@,
        error_text(sign * 6) == "No such device or address"@,
        error_text(sign * 9) == "Bad file descriptor"@,
        error_text(sign * 11) == "Resource temporarily unavailable"@,
        error_text(sign * 12) == "Cannot allocate memory"@,
        error_text(sign * 13) == "Permission denied"@,
        error_text(sign * 16) == "Device or resource busy"@,
        error_text(sign * 19) == "No such device"@,
        error_text(sign * 22) == "Invalid argument"@,
        error_text(sign * 32) == "Broken pipe"@,
        error_text(sign * 77) == "Function not implemented"@,
        error_text(sign * 95) == "Operation not supported"@,
        error_text(sign * 112) == "Host is down"@,
        error_text(sign * 200) == "errno="@ + decimal_signed(sign * 200),
{
}

/// The names of the states, in the order of their numbers; there are no others.
pub proof fn law_state_names(s: i32)
    ensures
        ({
            let names = seq![
                "SND_PCM_STATE_OPEN"@,
                "SETUP"@,
                "PREPARED"@,
                "RUNNING"@,
                "XRUN"@,
                "DRAINING"@,
                "PAUSED"@,
                "SUSPENDED"@,
                "DISCONNECTED"@,
            ];
            state_text(s) == if 0 <= s < names.len() {
                names[s as int]
            } else {
                "UNKNOWN"@
            }
        }),
{
}

} // verus!
