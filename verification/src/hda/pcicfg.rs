//! Decisions on the PCI configuration space of the HDA device: what to read
//! of it, and what to write back.
//!
//!  - bits 0-2 of TCSEL (offset 0x44) are cleared, which fixes speaker static;
//!  - the NOSNOOP bit (DEVC offset 0x78, bit 11) is cleared, so that DMA to
//!    the ring and the descriptor list is coherent;
//!  - memory space and bus mastering are enabled in the command register.
use crate::bytes::{get_u16, le16_at};
use vstd::prelude::*;

verus! {

pub const TCSEL_OFF: u64 = 0x44;

pub const DEVC_OFF: u64 = 0x78;

pub const DEVC_NOSNOOP_BIT: u16 = 0x0800;

/// Command register.
pub const PCI_CMD_OFF: u64 = 0x04;

pub const PCI_CMD_MEM_SPACE: u16 = 0x0002;

pub const PCI_CMD_BUS_MASTER: u16 = 0x0004;

pub const PCI_VENDOR_OFF: u64 = 0x00;

pub const PCI_DEVICE_OFF: u64 = 0x02;

/// The vendor and device IDs in the first four bytes of the header.
pub fn vendor_device(header: &[u8; 4]) -> (ids: (u16, u16))
    ensures
        ids.0 == le16_at(header@, 0),
        ids.1 == le16_at(header@, 2),
{
    let h = header.as_slice();
    (get_u16(h, 0), get_u16(h, 2))
}

/// What to write for coherent DMA, given TCSEL and DEVC: TCSEL with its low
/// three bits cleared, and DEVC without NOSNOOP where that was set.
pub fn set_snoop(tcsel: u8, devc: u16) -> (w: (u8, Option<u16>))
    ensures
        w.0 == tcsel - tcsel % 8,
        w.1 == if devc / 0x800 % 2 == 1 {
            Some((devc - 0x800) as u16)
        } else {
            None
        },
{
    let t: u8 = tcsel & 0xf8;
    assert(tcsel & 0xf8 == tcsel - tcsel % 8) by (bit_vector);
    assert((devc & 0x0800 != 0) <==> devc / 0x800 % 2 == 1) by (bit_vector);
    assert(devc & 0x0800 != 0 ==> devc & 0xf7ff == devc - 0x800) by (bit_vector);
    if devc & DEVC_NOSNOOP_BIT != 0 {
        (t, Some(devc & 0xf7ff))
    } else {
        (t, None)
    }
}

/// Whether both memory space and bus mastering are on.
pub open spec fn master_enabled(cmd: u16) -> bool {
    cmd / 2 % 4 == 3
}

/// The command register value to write so that the controller can fetch from
/// memory; `None` when it already can.
pub fn set_master(cmd: u16) -> (w: Option<u16>)
    ensures
        w is None <==> master_enabled(cmd),
        w matches Some(v) ==> master_enabled(v) && v == cmd - cmd / 2 % 4 * 2 + 6,
{
    let enable: u16 = PCI_CMD_MEM_SPACE | PCI_CMD_BUS_MASTER;
    assert(0x2u16 | 0x4u16 == 6) by (bit_vector);
    assert((cmd & 6 == 6) <==> cmd / 2 % 4 == 3) by (bit_vector);
    assert((cmd | 6) == cmd - cmd / 2 % 4 * 2 + 6) by (bit_vector);
    if cmd & enable == enable {
        None
    } else {
        Some(cmd | enable)
    }
}

} // verus!
