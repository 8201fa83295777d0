//! Playback session: controller, codec and running stream.
use super::bdl;
use super::codec::Codec;
use super::controller::Controller;
use super::dbg::DebugOpts;
use super::pagemap::PAGE_SIZE;
use super::program::{program_ok, Op};
use super::stream::{
    fitting, format_spec, format_val, ring_put, setup_ops, srst_ops, start_ops, stop_ops, Stream,
    FRAME_BYTES, RING_PAGES, RING_SIZE,
};
use vstd::prelude::*;

verus! {

pub const HW_RATE: u32 = 48000;

pub const HW_CHANNELS: u32 = 2;

/// What opening a session does after bring-up, in order. Any task may fail,
/// and ends the opening when it does.
#[derive(Clone, Copy, Debug, PartialEq, Eq, Structural)]
pub enum OpenTask {
    Probe,
    DumpTopology,
    /// Reset the stream descriptor.
    Reset,
    /// Set the stream up.
    Setup,
    InitCodec,
    DumpState,
}

/// The link carries no codec.
#[derive(Clone, Copy, Debug, PartialEq, Eq, Structural)]
pub struct NoCodecOnLink;

/// The tasks under some debug options: codec state is dumped only where the
/// codec was set up.
pub open spec fn open_tasks(dbg: DebugOpts) -> Seq<OpenTask> {
    seq![OpenTask::Probe] + (if dbg.dump_topology {
        seq![OpenTask::DumpTopology]
    } else {
        Seq::empty()
    }) + seq![OpenTask::Reset, OpenTask::Setup] + (if dbg.skip_codec_init {
        Seq::empty()
    } else {
        seq![OpenTask::InitCodec] + (if dbg.dump_state {
            seq![OpenTask::DumpState]
        } else {
            Seq::empty()
        })
    })
}

/// Top-level playback session.
pub struct HdaPlayback {
    pub controller: Controller,
    pub codec: Codec,
    pub stream: Stream,
    pub fmt: u16,
    pub rate: u32,
    pub running: bool,
    pub bytes_written: u64,
}

/// The program that resets the stream, sets it up and starts it.
pub open spec fn restart_ops(c: Controller, rate: u32, list: int) -> Seq<Op> {
    srst_ops(c) + setup_ops(c, format_spec(rate), list) + start_ops(c)
}

impl HdaPlayback {
    /// The stream is in order.
    pub open spec fn wf(&self) -> bool {
        self.stream.wf()
    }

    /// What to do once the link is up and shows the codecs in `codec_mask`.
    pub fn open(codec_mask: u16, dbg: &DebugOpts) -> (r: Result<Vec<OpenTask>, NoCodecOnLink>)
        ensures
            r is Err <==> codec_mask == 0,
            r matches Ok(tasks) ==> tasks@ == open_tasks(*dbg),
    {
        if codec_mask == 0 {
            return Err(NoCodecOnLink);
        }
        let mut tasks = vec![OpenTask::Probe];
        if dbg.dump_topology {
            tasks.push(OpenTask::DumpTopology);
        }
        tasks.push(OpenTask::Reset);
        tasks.push(OpenTask::Setup);
        if !dbg.skip_codec_init {
            tasks.push(OpenTask::InitCodec);
            if dbg.dump_state {
                tasks.push(OpenTask::DumpState);
            }
        }
        assert(tasks@ =~= open_tasks(*dbg));
        Ok(tasks)
    }

    /// The session that these tasks have opened. DMA is not running yet.
    pub fn opened(controller: Controller, codec: Codec, stream: Stream, rate: u32) -> (p: Self)
        requires
            stream.wf(),
        ensures
            p.wf(),
            p.controller == controller,
            p.codec == codec,
            p.stream == stream,
            p.fmt == format_spec(rate),
            p.rate == rate,
            !p.running,
            p.bytes_written == 0,
    {
        HdaPlayback {
            controller,
            codec,
            stream,
            fmt: format_val(rate),
            rate,
            running: false,
            bytes_written: 0,
        }
    }

    /// The stream tag.
    pub fn tag(&self) -> (tag: u32)
        ensures
            tag == self.controller.capture_streams_spec() + 1,
    {
        self.stream.tag(&self.controller)
    }

    /// The program that begins DMA; nothing when it is running. A reset clears
    /// the stream's registers, so they are programmed again before RUN.
    pub fn start(&mut self, bdl_mem: &mut [u8]) -> (ops: Vec<Op>)
        requires
            old(self).wf(),
            old(bdl_mem)@.len() == PAGE_SIZE,
        ensures
            final(self).wf(),
            final(self).running,
            final(self).controller == old(self).controller,
            final(self).codec == old(self).codec,
            final(self).fmt == old(self).fmt,
            final(self).rate == old(self).rate,
            final(self).bytes_written == old(self).bytes_written,
            final(self).stream.pos() == old(self).stream.pos(),
            final(self).stream.full_spec() == old(self).stream.full_spec(),
            final(self).stream.written_spec() == old(self).stream.written_spec(),
            final(self).stream.ring() == old(self).stream.ring(),
            final(self).stream.list() == old(self).stream.list(),
            program_ok(ops@),
            ops@.len() <= 15,
            if old(self).running {
                &&& ops@ == Seq::<Op>::empty()
                &&& final(bdl_mem)@ == old(bdl_mem)@
                &&& *final(self) == *old(self)
            } else {
                &&& final(self).stream.entries_spec() == RING_PAGES
                &&& ops@ == restart_ops(
                    old(self).controller,
                    old(self).rate,
                    old(self).stream.list().addr(0),
                )
                &&& final(bdl_mem)@ == bdl::filled(
                    old(bdl_mem)@,
                    old(self).stream.ring().pages(),
                    RING_PAGES as int,
                    RING_PAGES as int,
                    true,
                )
            },
    {
        if self.running {
            return Vec::new();
        }
        let mut ops = self.stream.srst(&self.controller);
        let mut setup = self.stream.setup(bdl_mem, &self.controller, self.rate);
        let mut start = self.stream.start(&self.controller);
        ops.append(&mut setup);
        ops.append(&mut start);
        self.running = true;
        assert(ops@ =~= restart_ops(self.controller, self.rate, self.stream.list().addr(0)));
        ops
    }

    /// Copy as much of `data` (S16_LE stereo bytes) as fits into the ring of a
    /// running session, given what SD_LPIB holds. Returns the bytes stored.
    pub fn play(&mut self, ring_mem: &mut [u8], lpib: u32, data: &[u8]) -> (n: usize)
        requires
            old(self).wf(),
            old(self).running,
            old(ring_mem)@.len() == RING_SIZE,
        ensures
            final(self).wf(),
            final(self).running,
            final(self).controller == old(self).controller,
            final(self).codec == old(self).codec,
            final(self).fmt == old(self).fmt,
            final(self).rate == old(self).rate,
            n == fitting(data@.len() as int, old(self).stream.outstanding(lpib)),
            final(ring_mem)@ == ring_put(
                old(ring_mem)@,
                old(self).stream.pos(),
                data@.take(n as int),
            ),
            final(self).stream.pos() == (old(self).stream.pos() + n) % 262144,
            final(self).stream.full_spec() == (old(self).stream.outstanding(lpib) + n
                == RING_SIZE),
            final(self).stream.ring() == old(self).stream.ring(),
            final(self).stream.list() == old(self).stream.list(),
            final(self).stream.entries_spec() == old(self).stream.entries_spec(),
            final(self).stream.written_spec() == if n == 0 {
                old(self).stream.written_spec()
            } else {
                old(self).stream.pos() + n
            },
            final(self).bytes_written == (old(self).bytes_written + n) % 0x1_0000_0000_0000_0000,
    {
        let n: usize = self.stream.write(ring_mem, lpib, data);
        self.bytes_written = self.bytes_written.wrapping_add(n as u64);
        n
    }

    /// Frames waiting in the ring, given what SD_LPIB holds.
    pub fn delay_frames(&self, lpib: u32) -> (n: i64)
        requires
            self.wf(),
        ensures
            n == self.stream.outstanding(lpib) / 4,
            0 <= n <= RING_SIZE / 4,
    {
        (self.stream.delay_bytes(lpib) / FRAME_BYTES) as i64
    }

    /// Take note of what SD_LPIB holds.
    pub fn note(&mut self, lpib: u32)
        requires
            old(self).wf(),
        ensures
            final(self).wf(),
            old(self).stream.noted(lpib, final(self).stream),
            final(self).stream.outstanding(lpib) == old(self).stream.outstanding(lpib),
            final(self).controller == old(self).controller,
            final(self).codec == old(self).codec,
            final(self).fmt == old(self).fmt,
            final(self).rate == old(self).rate,
            final(self).running == old(self).running,
            final(self).bytes_written == old(self).bytes_written,
    {
        self.stream.note(lpib);
    }

    /// The program that halts the stream before `drop_all`.
    pub fn halt(&self) -> (ops: Vec<Op>)
        ensures
            ops@ == stop_ops(self.controller) + srst_ops(self.controller),
            program_ok(ops@),
    {
        let mut ops = self.stream.stop(&self.controller);
        let mut srst = self.stream.srst(&self.controller);
        ops.append(&mut srst);
        assert(ops@ =~= stop_ops(self.controller) + srst_ops(self.controller));
        ops
    }

    /// Drop everything once the stream is halted: the ring is zeroed, so the
    /// stream restarts from silence and never plays stale bytes.
    pub fn drop_all(&mut self, ring_mem: &mut [u8])
        requires
            old(self).wf(),
            old(ring_mem)@.len() == RING_SIZE,
        ensures
            final(self).wf(),
            !final(self).running,
            final(self).stream.pos() == 0,
            !final(self).stream.full_spec(),
            final(self).stream.ring() == old(self).stream.ring(),
            final(self).stream.list() == old(self).stream.list(),
            final(self).stream.entries_spec() == old(self).stream.entries_spec(),
            final(self).stream.written_spec() == old(self).stream.written_spec(),
            final(self).controller == old(self).controller,
            final(self).codec == old(self).codec,
            final(self).fmt == old(self).fmt,
            final(self).rate == old(self).rate,
            final(self).bytes_written == old(self).bytes_written,
            final(ring_mem)@ == Seq::new(old(ring_mem)@.len(), |i: int| 0u8),
    {
        self.stream.clear();
        self.stream.zero_ring(ring_mem);
        self.running = false;
    }

    /// The program that stops DMA for a shutdown.
    pub fn stop(&mut self) -> (ops: Vec<Op>)
        requires
            old(self).wf(),
        ensures
            final(self).wf(),
            !final(self).running,
            final(self).stream == old(self).stream,
            final(self).controller == old(self).controller,
            final(self).codec == old(self).codec,
            final(self).fmt == old(self).fmt,
            final(self).rate == old(self).rate,
            final(self).bytes_written == old(self).bytes_written,
            ops@ == stop_ops(old(self).controller),
            program_ok(ops@),
    {
        self.running = false;
        self.stream.stop(&self.controller)
    }
}

/// What opening a session does: it probes first; the stream is reset before it
/// is set up; the codec is set up last, unless that is to be skipped; what is to
/// be dumped is dumped, the codec's state only once it was set up.
pub proof fn law_open_tasks(dbg: DebugOpts)
    ensures
        ({
            let t = open_tasks(dbg);
            let d = if dbg.dump_topology {
                1int
            } else {
                0
            };
            &&& t[0] == OpenTask::Probe
            &&& dbg.dump_topology ==> t[1] == OpenTask::DumpTopology
            &&& t[1 + d] == OpenTask::Reset
            &&& t[2 + d] == OpenTask::Setup
            &&& !dbg.skip_codec_init ==> t[3 + d] == OpenTask::InitCodec
            &&& !dbg.skip_codec_init && dbg.dump_state ==> t[4 + d] == OpenTask::DumpState
            &&& t.len() == 3 + d + (if dbg.skip_codec_init {
                0int
            } else if dbg.dump_state {
                2
            } else {
                1
            })
        }),
{
}

/// A session that starts resets its stream, sets it up anew with its own rate,
/// and only then runs it.
pub proof fn law_restart(c: Controller, rate: u32, list: int)
    ensures
        restart_ops(c, rate, list).len() == 15,
        restart_ops(c, rate, list).take(4) == srst_ops(c),
        restart_ops(c, rate, list).subrange(4, 11) == setup_ops(c, format_spec(rate), list),
        restart_ops(c, rate, list).skip(11) == start_ops(c),
{
    let ops = restart_ops(c, rate, list);
    assert(ops.take(4) =~= srst_ops(c));
    assert(ops.subrange(4, 11) =~= setup_ops(c, format_spec(rate), list));
    assert(ops.skip(11) =~= start_ops(c));
}

} // verus!
