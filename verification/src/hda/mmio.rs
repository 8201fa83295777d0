//! Access rules for the controller's memory-mapped registers.
use vstd::prelude::*;

verus! {

/// Bytes of BAR0 that are mapped.
pub const BAR_LEN: usize = 0x4000;

/// Whether an access of `size` bytes at `off` lies within a mapping of `len`
/// bytes and is aligned to `width`.
pub open spec fn access_ok(len: int, off: int, size: int, width: int) -> bool {
    0 < width && off % width == 0 && off + size <= len
}

/// Extent of a register mapping.
pub struct Mmio {
    pub len: usize,
}

impl Mmio {
    /// The window that `resource0` is mapped with.
    pub fn window() -> (m: Self)
        ensures
            m.len == BAR_LEN,
    {
        Mmio { len: BAR_LEN }
    }

    /// Whether an access of `size` bytes at `off` lies fully within the
    /// mapping and is naturally aligned for `width`.
    pub fn check(&self, off: usize, size: usize, width: usize) -> (ok: bool)
        ensures
            ok == access_ok(self.len as int, off as int, size as int, width as int),
    {
        if width == 0 || off % width != 0 {
            return false;
        }
        match off.checked_add(size) {
            Some(end) => end <= self.len,
            None => false,
        }
    }
}

/// An access is allowed exactly when it begins at a multiple of its width and
/// every byte of it is mapped.
pub proof fn law_access(len: int, off: int, size: int, width: int)
    requires
        width > 0,
        size > 0,
        0 <= off,
    ensures
        access_ok(len, off, size, width) ==> forall|b: int|
            off <= b < off + size ==> 0 <= #[trigger] (b + 0) < len,
        access_ok(len, off, size, width) <==> off % width == 0 && off + size - 1 < len,
        !access_ok(len, off, size, 0),
{
}

} // verus!
