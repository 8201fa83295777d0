//! Bounded byte ring shared by the shim (client side) and the server's mixer
//! (per-client stream queues).
//!
//! The ring itself never blocks: `push` reports whether the bytes found room
//! and `pop` reports that there is nothing to take yet. A caller that wants
//! back-pressure holds the ring behind a lock and waits on a condition
//! variable until the answer changes.
use vstd::arithmetic::power2::{lemma2_to64, lemma_pow2_pos, lemma_pow2_strictly_increases, lemma_pow2_unfold, pow2};
use vstd::prelude::*;

verus! {

/// Answer of [`AudioRingBuffer::pop`].
#[derive(Clone, Copy, Debug, PartialEq, Eq, Structural)]
pub enum PopOutcome {
    /// The ring was interrupted; nothing was taken and the signal is consumed.
    Interrupted,
    /// The ring is empty; ask again once bytes have been pushed.
    Empty,
    /// This many bytes were taken.
    Bytes(usize),
}

/// A bounded first-in first-out queue of bytes.
pub struct AudioRingBuffer {
    cap: usize,
    buf: Vec<u8>,
    read_pos: usize,
    write_pos: usize,
    filled: usize,
    interrupted: bool,
}

/// `p` is a power of two.
pub open spec fn is_power_of_two(p: int) -> bool {
    exists|k: nat| p == #[trigger] pow2(k)
}

/// `p` is the least power of two that is not below `n`.
pub open spec fn is_next_power_of_two(p: int, n: int) -> bool {
    &&& is_power_of_two(p)
    &&& n <= p
    &&& forall|k: nat| n <= #[trigger] pow2(k) ==> p <= pow2(k)
}

/// Whether a queue that holds `queued` accepts `data` as one piece.
pub open spec fn accepts(queued: Seq<u8>, cap: nat, data: Seq<u8>) -> bool {
    queued.len() + data.len() <= cap
}

/// The queue after `data` was offered: appended whole, or not at all.
pub open spec fn after_push(queued: Seq<u8>, cap: nat, data: Seq<u8>) -> Seq<u8> {
    if accepts(queued, cap, data) {
        queued + data
    } else {
        queued
    }
}

/// How many bytes leave when `room` are asked for.
pub open spec fn taken_count(queued: Seq<u8>, room: nat) -> nat {
    if room < queued.len() {
        room
    } else {
        queued.len()
    }
}

/// The bytes that leave when `room` are asked for: the oldest ones.
pub open spec fn taken(queued: Seq<u8>, room: nat) -> Seq<u8> {
    queued.take(taken_count(queued, room) as int)
}

/// The queue after `room` bytes were asked for.
pub open spec fn after_pop(queued: Seq<u8>, room: nat) -> Seq<u8> {
    queued.skip(taken_count(queued, room) as int)
}

spec fn wrap(i: int, cap: int) -> int {
    if i < cap {
        i
    } else {
        i - cap
    }
}

fn next_power_of_two(n: usize) -> (p: usize)
    requires
        n <= usize::MAX / 4 + 1,
    ensures
        is_next_power_of_two(p as int, n as int),
        1 <= p,
{
    let mut p: usize = 1;
    let ghost mut k: nat = 0;
    proof {
        lemma2_to64();
    }
    while p < n
        invariant
            n <= usize::MAX / 4 + 1,
            1 <= p,
            p == pow2(k),
            k > 0 ==> pow2((k - 1) as nat) < n,
        decreases 2 * n - p,
    {
        proof {
            lemma_pow2_unfold(k + 1);
            k = k + 1;
        }
        p = p * 2;
    }
    proof {
        assert forall|j: nat| n <= #[trigger] pow2(j) implies p <= pow2(j) by {
            if j < k {
                if j < k - 1 {
                    lemma_pow2_strictly_increases(j, (k - 1) as nat);
                }
            } else if k < j {
                lemma_pow2_strictly_increases(k, j);
            }
        }
        assert(is_power_of_two(p as int));
    }
    p
}

impl View for AudioRingBuffer {
    type V = Seq<u8>;

    /// The queued bytes, oldest first.
    closed spec fn view(&self) -> Seq<u8> {
        Seq::new(
            self.filled as nat,
            |i: int| self.buf@[wrap(self.read_pos + i, self.cap as int)],
        )
    }
}

impl AudioRingBuffer {
    /// The ring's internal positions are consistent.
    pub closed spec fn wf(&self) -> bool {
        &&& 0 < self.cap
        &&& self.cap <= usize::MAX / 2
        &&& self.buf@.len() == self.cap
        &&& self.read_pos < self.cap
        &&& self.filled <= self.cap
        &&& self.write_pos == wrap(self.read_pos + self.filled, self.cap as int)
    }

    /// How many bytes the ring holds at most.
    pub closed spec fn cap_spec(&self) -> nat {
        self.cap as nat
    }

    /// Whether an interrupt is waiting to be seen.
    pub closed spec fn is_interrupted(&self) -> bool {
        self.interrupted
    }

    /// The queue never holds more than its capacity.
    pub proof fn law_bounded(&self)
        requires
            self.wf(),
        ensures
            self@.len() <= self.cap_spec(),
    {
    }

    /// An empty ring whose capacity is `capacity` rounded up to a power of
    /// two.
    pub fn new(capacity: usize) -> (r: Self)
        requires
            capacity <= usize::MAX / 4 + 1,
        ensures
            r.wf(),
            r@ == Seq::<u8>::empty(),
            is_next_power_of_two(r.cap_spec() as int, capacity as int),
            !r.is_interrupted(),
    {
        let cap: usize = next_power_of_two(capacity);
        assert(cap <= usize::MAX / 2) by {
            lemma_next_power_bound(cap, capacity);
        }
        let buf: Vec<u8> = vec![0u8; cap];
        let r = AudioRingBuffer {
            cap,
            buf,
            read_pos: 0,
            write_pos: 0,
            filled: 0,
            interrupted: false,
        };
        assert(r@ =~= Seq::<u8>::empty());
        r
    }

    /// The ring's capacity in bytes.
    pub fn capacity(&self) -> (n: usize)
        ensures
            n == self.cap_spec(),
    {
        self.cap
    }

    /// How many bytes are queued.
    pub fn filled(&self) -> (n: usize)
        ensures
            n == self@.len(),
    {
        self.filled
    }

    /// How many more bytes fit.
    pub fn available(&self) -> (n: usize)
        requires
            self.wf(),
        ensures
            n == self.cap_spec() - self@.len(),
    {
        self.cap - self.filled
    }

    /// Queue `data` behind what is there already. The bytes go in as one
    /// piece: `false` means that they do not all fit yet and that nothing was
    /// stored.
    pub fn push(&mut self, data: &[u8]) -> (stored: bool)
        requires
            old(self).wf(),
        ensures
            final(self).wf(),
            final(self).cap_spec() == old(self).cap_spec(),
            final(self).is_interrupted() == old(self).is_interrupted(),
            stored == accepts(old(self)@, old(self).cap_spec(), data@),
            final(self)@ == after_push(old(self)@, old(self).cap_spec(), data@),
    {
        let n: usize = data.len();
        if n > self.cap - self.filled {
            return false;
        }
        let ghost before = self@;
        let space_to_end: usize = self.cap - self.write_pos;
        let first: usize = if n < space_to_end {
            n
        } else {
            space_to_end
        };
        let mut i: usize = 0;
        while i < n
            invariant
                i <= n,
                n == data@.len(),
                n <= old(self).cap - old(self).filled,
                old(self).wf(),
                first <= n,
                first == (if n < old(self).cap - old(self).write_pos {
                    n as int
                } else {
                    old(self).cap - old(self).write_pos
                }),
                self.cap == old(self).cap,
                self.read_pos == old(self).read_pos,
                self.write_pos == old(self).write_pos,
                self.filled == old(self).filled,
                self.interrupted == old(self).interrupted,
                self.buf@.len() == self.cap,
                forall|k: int|
                    0 <= k < self.filled ==> #[trigger] self.buf@[wrap(
                        self.read_pos + k,
                        self.cap as int,
                    )] == old(self).buf@[wrap(self.read_pos + k, self.cap as int)],
                forall|k: int|
                    0 <= k < i ==> #[trigger] self.buf@[wrap(
                        self.read_pos + self.filled + k,
                        self.cap as int,
                    )] == data@[k],
            decreases n - i,
        {
            let at: usize = if i < first {
                self.write_pos + i
            } else {
                i - first
            };
            assert(at == wrap(self.read_pos + self.filled + i, self.cap as int));
            self.buf.set(at, data[i]);
            i = i + 1;
        }
        if first < n {
            self.write_pos = n - first;
        } else {
            self.write_pos = self.write_pos + first;
        }
        if self.write_pos >= self.cap {
            self.write_pos = self.write_pos - self.cap;
        }
        self.filled = self.filled + n;
        proof {
            let all = before + data@;
            assert(self@.len() == all.len());
            assert forall|k: int| 0 <= k < all.len() implies self@[k] == all[k] by {
                if k < before.len() {
                    assert(self.buf@[wrap(self.read_pos + k, self.cap as int)] == old(
                        self,
                    ).buf@[wrap(self.read_pos + k, self.cap as int)]);
                } else {
                    let d = k - before.len();
                    assert(self.buf@[wrap(
                        self.read_pos + old(self).filled + d,
                        self.cap as int,
                    )] == data@[d]);
                }
            }
            assert(self@ =~= all);
        }
        true
    }

    /// Make the next [`pop`](Self::pop) or [`try_pop`](Self::try_pop) return
    /// without data, once.
    pub fn interrupt(&mut self)
        requires
            old(self).wf(),
        ensures
            final(self).wf(),
            final(self)@ == old(self)@,
            final(self).cap_spec() == old(self).cap_spec(),
            final(self).is_interrupted(),
    {
        self.interrupted = true;
    }

    /// Move the oldest bytes into `buf`, as many as are there and fit.
    fn copy_out(&mut self, buf: &mut [u8]) -> (n: usize)
        requires
            old(self).wf(),
        ensures
            final(self).wf(),
            final(self).cap_spec() == old(self).cap_spec(),
            final(self).is_interrupted() == old(self).is_interrupted(),
            n == taken_count(old(self)@, old(buf)@.len()),
            final(self)@ == after_pop(old(self)@, old(buf)@.len()),
            final(buf)@ == taken(old(self)@, old(buf)@.len()) + old(buf)@.skip(n as int),
    {
        let room: usize = buf.len();
        let to_read: usize = if room < self.filled {
            room
        } else {
            self.filled
        };
        let space_to_end: usize = self.cap - self.read_pos;
        let first: usize = if to_read < space_to_end {
            to_read
        } else {
            space_to_end
        };
        let mut i: usize = 0;
        while i < to_read
            invariant
                i <= to_read,
                *self == *old(self),
                self.wf(),
                to_read <= self.filled,
                to_read <= buf@.len(),
                buf@.len() == old(buf)@.len(),
                first == (if to_read < self.cap - self.read_pos {
                    to_read as int
                } else {
                    self.cap - self.read_pos
                }),
                forall|k: int| 0 <= k < i ==> buf@[k] == self@[k],
                forall|k: int| i <= k < buf@.len() ==> buf@[k] == old(buf)@[k],
            decreases to_read - i,
        {
            let at: usize = if i < first {
                self.read_pos + i
            } else {
                i - first
            };
            assert(at == wrap(self.read_pos + i, self.cap as int));
            buf[i] = self.buf[at];
            i = i + 1;
        }
        if first < to_read {
            self.read_pos = to_read - first;
        } else {
            self.read_pos = self.read_pos + first;
        }
        if self.read_pos >= self.cap {
            self.read_pos = self.read_pos - self.cap;
        }
        self.filled = self.filled - to_read;
        assert(self@ =~= old(self)@.skip(to_read as int));
        assert(buf@ =~= old(self)@.take(to_read as int) + old(buf)@.skip(to_read as int));
        to_read
    }

    /// Take up to `buf.len()` of the oldest bytes. A pending interrupt is
    /// reported first, and reported once.
    pub fn pop(&mut self, buf: &mut [u8]) -> (outcome: PopOutcome)
        requires
            old(self).wf(),
        ensures
            final(self).wf(),
            final(self).cap_spec() == old(self).cap_spec(),
            !final(self).is_interrupted(),
            outcome == (if old(self).is_interrupted() {
                PopOutcome::Interrupted
            } else if old(self)@.len() == 0 {
                PopOutcome::Empty
            } else {
                PopOutcome::Bytes(taken_count(old(self)@, old(buf)@.len()) as usize)
            }),
            match outcome {
                PopOutcome::Bytes(n) => {
                    &&& final(self)@ == after_pop(old(self)@, old(buf)@.len())
                    &&& final(buf)@ == taken(old(self)@, old(buf)@.len()) + old(buf)@.skip(n as int)
                },
                _ => final(self)@ == old(self)@ && final(buf)@ == old(buf)@,
            },
    {
        if self.interrupted {
            self.interrupted = false;
            return PopOutcome::Interrupted;
        }
        if self.filled == 0 {
            return PopOutcome::Empty;
        }
        let n: usize = self.copy_out(buf);
        PopOutcome::Bytes(n)
    }

    /// Like [`pop`](Self::pop), for a caller that never waits: an empty or
    /// interrupted ring yields zero bytes.
    pub fn try_pop(&mut self, buf: &mut [u8]) -> (n: usize)
        requires
            old(self).wf(),
        ensures
            final(self).wf(),
            final(self).cap_spec() == old(self).cap_spec(),
            !final(self).is_interrupted(),
            old(self).is_interrupted() ==> n == 0 && final(self)@ == old(self)@ && final(buf)@
                == old(buf)@,
            !old(self).is_interrupted() ==> {
                &&& n == taken_count(old(self)@, old(buf)@.len())
                &&& final(self)@ == after_pop(old(self)@, old(buf)@.len())
                &&& final(buf)@ == taken(old(self)@, old(buf)@.len()) + old(buf)@.skip(n as int)
            },
    {
        if self.interrupted {
            self.interrupted = false;
            return 0;
        }
        if self.filled == 0 {
            proof {
                assert(after_pop(self@, buf@.len()) =~= self@);
                assert(taken(self@, buf@.len()) + buf@.skip(0) =~= buf@);
            }
            return 0;
        }
        self.copy_out(buf)
    }

    /// Forget everything that is queued.
    pub fn clear(&mut self)
        requires
            old(self).wf(),
        ensures
            final(self).wf(),
            final(self)@ == Seq::<u8>::empty(),
            final(self).cap_spec() == old(self).cap_spec(),
            final(self).is_interrupted() == old(self).is_interrupted(),
    {
        self.read_pos = 0;
        self.write_pos = 0;
        self.filled = 0;
        assert(self@ =~= Seq::<u8>::empty());
    }
}

proof fn lemma_next_power_bound(p: usize, n: usize)
    requires
        n <= usize::MAX / 4 + 1,
        is_next_power_of_two(p as int, n as int),
    ensures
        p <= usize::MAX / 2,
{
    let k = choose|k: nat| p == #[trigger] pow2(k);
    if k > 0 {
        let h = (k - 1) as nat;
        lemma_pow2_unfold(k);
        lemma_pow2_pos(h);
        assert(p == 2 * pow2(h));
        if n <= pow2(h) {
            assert(p <= pow2(h));
        }
        assert(p <= 2 * (n - 1));
    } else {
        lemma2_to64();
    }
}

/// Bytes leave in the order in which they came: what was queued before a push
/// comes out first, then the pushed bytes, unchanged.
pub proof fn law_fifo(queued: Seq<u8>, cap: nat, data: Seq<u8>)
    requires
        accepts(queued, cap, data),
    ensures
        taken(after_push(queued, cap, data), queued.len() + data.len()) == queued + data,
        taken(after_push(queued, cap, data), queued.len()) == queued,
        after_pop(after_push(queued, cap, data), queued.len()) == data,
{
    let all = queued + data;
    assert(all.take(all.len() as int) =~= all);
    assert(all.take(queued.len() as int) =~= queued);
    assert(all.skip(queued.len() as int) =~= data);
}

/// Taking `a` bytes and then `b` bytes yields the same stream as taking
/// `a + b` bytes at once.
pub proof fn law_pop_splits(queued: Seq<u8>, a: nat, b: nat)
    ensures
        taken(queued, a) + taken(after_pop(queued, a), b) == taken(queued, a + b),
        after_pop(after_pop(queued, a), b) == after_pop(queued, a + b),
{
    assert(taken(queued, a) + taken(after_pop(queued, a), b) =~= taken(queued, a + b));
    assert(after_pop(after_pop(queued, a), b) =~= after_pop(queued, a + b));
}

/// Nothing is lost or invented by a pop: what leaves followed by what stays
/// is what was queued.
pub proof fn law_pop_partitions(queued: Seq<u8>, room: nat)
    ensures
        taken(queued, room) + after_pop(queued, room) == queued,
{
    assert(taken(queued, room) + after_pop(queued, room) =~= queued);
}

/// A piece is queued whole as soon as it fits, and not at all before.
pub proof fn law_push_whole_or_nothing(queued: Seq<u8>, cap: nat, data: Seq<u8>)
    ensures
        queued.len() + data.len() <= cap ==> accepts(queued, cap, data) && after_push(
            queued,
            cap,
            data,
        ) == queued + data,
        queued.len() + data.len() > cap ==> !accepts(queued, cap, data) && after_push(
            queued,
            cap,
            data,
        ) == queued,
{
}

/// A pop takes all that there is room for, the oldest bytes first.
pub proof fn law_pop_takes_all_it_can(queued: Seq<u8>, room: nat)
    ensures
        taken(queued, room).len() == room || (taken(queued, room).len() < room && after_pop(
            queued,
            room,
        ).len() == 0),
        taken(queued, room) == queued.take(taken(queued, room).len() as int),
        taken_count(queued, room) == taken(queued, room).len(),
{
}

/// A ring holds what was asked for, and less than twice that.
pub proof fn law_capacity_is_close(p: int, n: int)
    requires
        1 <= n,
        is_next_power_of_two(p, n),
    ensures
        n <= p < 2 * n,
        exists|k: nat| p == #[trigger] pow2(k),
{
    let k = choose|k: nat| p == #[trigger] pow2(k);
    if k > 0 {
        let h = (k - 1) as nat;
        lemma_pow2_unfold(k);
        lemma_pow2_pos(h);
        assert(p == 2 * pow2(h));
        if n <= pow2(h) {
            assert(p <= pow2(h));
        }
    } else {
        lemma2_to64();
    }
}

} // verus!
