//! One connection after admission: what its thread does with what arrives.
//!
//! Before each frame of a stream a shutdown is looked for, and the stream waits
//! until something can be read, so that one is seen; within a frame, and on a
//! control connection, it reads at once. Frames are acted on in the order in
//! which they were sent, each exactly once.
use super::protocol::{
    frame_views, law_split_invariance, parse, within_audio, Cmd, Frame, FrameReader, FrameView,
};
use std::collections::VecDeque;
use vstd::prelude::*;

verus! {

/// Milliseconds that a stream waits for something to read.
pub const WAIT_MS: i32 = 250;

/// Bytes that are read at once.
pub const READ_BYTES: usize = 8192;

/// What the thread waits for.
#[derive(Clone, Copy, Debug, PartialEq, Eq, Structural)]
pub enum ClientStage {
    /// Nothing: the frames that have arrived are acted on.
    Serving,
    /// Something to read.
    Waiting,
    /// Bytes.
    Reading,
    End,
}

/// What came of the last action.
pub enum ClientEvent {
    /// Begin, or it is done.
    Done,
    /// The wait ended without anything to read, or was interrupted.
    Idle,
    /// There is something to read.
    Ready,
    /// These bytes were read; none means that the client has closed.
    Data(Vec<u8>),
    /// The read was interrupted.
    Interrupted,
    /// The action failed.
    Failed,
}

/// What came of the last action.
pub ghost enum ClientNews {
    Done,
    Idle,
    Ready,
    Data(Seq<u8>),
    Interrupted,
    Failed,
}

impl View for ClientEvent {
    type V = ClientNews;

    open spec fn view(&self) -> ClientNews {
        match *self {
            ClientEvent::Done => ClientNews::Done,
            ClientEvent::Idle => ClientNews::Idle,
            ClientEvent::Ready => ClientNews::Ready,
            ClientEvent::Data(b) => ClientNews::Data(b@),
            ClientEvent::Interrupted => ClientNews::Interrupted,
            ClientEvent::Failed => ClientNews::Failed,
        }
    }
}

/// What the thread does next.
pub enum ClientAction {
    /// Wait until there is something to read, so many milliseconds at most.
    Wait(i32),
    /// Read so many bytes at most.
    Read(usize),
    /// Convert this audio and queue it behind the stream's.
    Play(Vec<u8>),
    /// Have the stream's queued audio dropped.
    Flush,
    /// Apply a command to the shared state and send its reply.
    Obey(Cmd),
    /// Mark the stream finished and close the connection.
    Finish,
}

/// What the thread does next.
pub ghost enum ClientAsk {
    Wait(int),
    Read(int),
    Play(Seq<u8>),
    Flush,
    Obey(Cmd),
    Finish,
}

impl View for ClientAction {
    type V = ClientAsk;

    open spec fn view(&self) -> ClientAsk {
        match *self {
            ClientAction::Wait(ms) => ClientAsk::Wait(ms as int),
            ClientAction::Read(n) => ClientAsk::Read(n as int),
            ClientAction::Play(b) => ClientAsk::Play(b@),
            ClientAction::Flush => ClientAsk::Flush,
            ClientAction::Obey(c) => ClientAsk::Obey(c),
            ClientAction::Finish => ClientAsk::Finish,
        }
    }
}

/// A connection: whether it is a stream, what it waits for, the frames that
/// are still to be acted on, the bytes behind the last frame, and whether
/// something arrived that ends it.
pub ghost struct ClientView {
    pub stream: bool,
    pub stage: ClientStage,
    pub queue: Seq<FrameView>,
    pub rest: Seq<u8>,
    pub bad: bool,
}

/// A connection that has just been admitted.
pub open spec fn client_start(stream: bool) -> ClientView {
    ClientView {
        stream,
        stage: ClientStage::Serving,
        queue: Seq::empty(),
        rest: Seq::empty(),
        bad: false,
    }
}

/// What a frame asks for. On a stream a flush concerns that stream; elsewhere
/// it is a command like any other.
pub open spec fn asked(stream: bool, f: FrameView) -> ClientAsk {
    match f {
        FrameView::Pcm(data) => ClientAsk::Play(data),
        FrameView::Command(c) => if stream && c == Cmd::Flush {
            ClientAsk::Flush
        } else {
            ClientAsk::Obey(c)
        },
    }
}

/// Close the connection.
pub open spec fn client_end(v: ClientView) -> (ClientView, ClientAsk) {
    (ClientView { stage: ClientStage::End, ..v }, ClientAsk::Finish)
}

/// Look for something to read. Between two frames, a stream waits for it.
pub open spec fn client_wait(v: ClientView) -> (ClientView, ClientAsk) {
    if v.stream && v.rest.len() == 0 {
        (ClientView { stage: ClientStage::Waiting, ..v }, ClientAsk::Wait(WAIT_MS as int))
    } else {
        (ClientView { stage: ClientStage::Reading, ..v }, ClientAsk::Read(READ_BYTES as int))
    }
}

/// Act on the next frame; behind the last one, look for more, unless something
/// bad has arrived.
pub open spec fn client_serve(v: ClientView) -> (ClientView, ClientAsk) {
    if v.queue.len() > 0 {
        (
            ClientView { stage: ClientStage::Serving, queue: v.queue.skip(1), ..v },
            asked(v.stream, v.queue[0]),
        )
    } else if v.bad {
        client_end(v)
    } else {
        client_wait(v)
    }
}

/// The connection after more bytes have arrived.
pub open spec fn client_fed(v: ClientView, data: Seq<u8>) -> ClientView {
    let p = parse(v.rest + data, v.stream);
    ClientView { queue: v.queue + p.frames, rest: p.rest, bad: p.bad, ..v }
}

/// One step of a connection; `shutdown` is whether the server is to end, which
/// ends a stream before its next frame. An interrupted read is repeated, but
/// ends the connection within the audio of a frame.
pub open spec fn client_next(v: ClientView, ev: ClientNews, shutdown: bool) -> (
    ClientView,
    ClientAsk,
) {
    match v.stage {
        ClientStage::Serving => if ev is Failed || (v.stream && shutdown) {
            client_end(v)
        } else {
            client_serve(v)
        },
        ClientStage::Waiting => if shutdown || ev is Failed {
            client_end(v)
        } else if ev is Ready {
            (
                ClientView { stage: ClientStage::Reading, ..v },
                ClientAsk::Read(READ_BYTES as int),
            )
        } else {
            client_wait(v)
        },
        ClientStage::Reading => match ev {
            ClientNews::Data(data) => if data.len() == 0 {
                client_end(v)
            } else {
                client_serve(client_fed(v, data))
            },
            ClientNews::Failed => client_end(v),
            ClientNews::Interrupted => if within_audio(v.rest) {
                client_end(v)
            } else {
                (v, ClientAsk::Read(READ_BYTES as int))
            },
            _ => (v, ClientAsk::Read(READ_BYTES as int)),
        },
        ClientStage::End => client_end(v),
    }
}

/// A connection that reads has acted on every frame before.
pub open spec fn client_ok(v: ClientView) -> bool {
    v.stage == ClientStage::Waiting || v.stage == ClientStage::Reading ==> v.queue.len() == 0
        && !v.bad
}

/// Every step keeps a connection in order, and the end is final.
pub proof fn law_client_keeps_order(v: ClientView, ev: ClientNews, shutdown: bool)
    requires
        client_ok(v),
    ensures
        client_ok(client_next(v, ev, shutdown).0),
        client_next(v, ev, shutdown).0.stream == v.stream,
        v.stage == ClientStage::End ==> client_next(v, ev, shutdown) == (v, ClientAsk::Finish),
        client_next(v, ev, shutdown).1 is Finish <==> client_next(v, ev, shutdown).0.stage
            == ClientStage::End,
        client_ok(client_start(v.stream)),
{
}

/// Each frame is acted on once and in order: an action other than waiting,
/// reading and finishing is what the first frame of the queue asks for, and
/// takes that frame off; nothing else takes a frame off the queue.
pub proof fn law_frames_in_order(v: ClientView, ev: ClientNews, shutdown: bool)
    requires
        client_ok(v),
    ensures
        ({
            let (w, a) = client_next(v, ev, shutdown);
            let fed = if v.stage == ClientStage::Reading && ev is Data {
                client_fed(v, ev->Data_0)
            } else {
                v
            };
            if a is Play || a is Flush || a is Obey {
                &&& fed.queue.len() > 0
                &&& a == asked(v.stream, fed.queue[0])
                &&& w.queue == fed.queue.skip(1)
            } else {
                w.queue == v.queue
            }
        }),
{
    let (w, a) = client_next(v, ev, shutdown);
    if v.stage == ClientStage::Reading && ev is Data {
        if ev->Data_0.len() > 0 {
            assert(v.queue =~= Seq::empty());
            let fed = client_fed(v, ev->Data_0);
            if fed.queue.len() == 0 {
                assert(w.queue =~= v.queue);
            }
        }
    }
}

/// A shutdown ends a stream at the next frame boundary: a stream that is not in
/// the middle of a read acts on no further frame and finishes.
pub proof fn law_shutdown_ends_stream(v: ClientView, ev: ClientNews)
    requires
        v.stream,
        v.stage != ClientStage::Reading,
    ensures
        client_next(v, ev, true) == (
            ClientView { stage: ClientStage::End, ..v },
            ClientAsk::Finish,
        ),
{
}

/// What a connection is asked for does not depend on how its bytes were cut
/// into reads: feeding two pieces leaves the same frames to act on, the same
/// remainder and the same verdict as feeding both at once.
pub proof fn law_reads_can_be_cut(v: ClientView, a: Seq<u8>, b: Seq<u8>)
    requires
        !parse(v.rest + a, v.stream).bad,
    ensures
        client_fed(client_fed(v, a), b) == client_fed(v, a + b),
{
    law_split_invariance(v.rest + a, b, v.stream);
    assert(v.rest + a + b =~= v.rest + (a + b));
    let p = parse(v.rest + a, v.stream);
    let q = parse(p.rest + b, v.stream);
    assert(v.queue + p.frames + q.frames =~= v.queue + (p.frames + q.frames));
}

/// A control connection never plays and never flushes: its queue never holds
/// audio.
pub proof fn law_control_is_silent(v: ClientView, data: Seq<u8>)
    requires
        !v.stream,
        forall|i: int| 0 <= i < v.queue.len() ==> (#[trigger] v.queue[i]) is Command,
    ensures
        forall|i: int|
            0 <= i < client_fed(v, data).queue.len() ==> (#[trigger] client_fed(
                v,
                data,
            ).queue[i]) is Command,
        v.queue.len() > 0 ==> asked(v.stream, v.queue[0]) is Obey,
{
    lemma_no_pcm(v.rest + data);
    let p = parse(v.rest + data, false);
    assert forall|i: int| 0 <= i < client_fed(v, data).queue.len() implies (
    #[trigger] client_fed(v, data).queue[i]) is Command by {
        if i >= v.queue.len() {
            assert(p.frames[i - v.queue.len()] is Command);
        }
    }
}

proof fn lemma_no_pcm(s: Seq<u8>)
    ensures
        forall|i: int|
            0 <= i < parse(s, false).frames.len() ==> (#[trigger] parse(
                s,
                false,
            ).frames[i]) is Command,
    decreases s.len(),
{
    if let super::protocol::Head::Frame(f, n) = super::protocol::head(s, false) {
        if 0 < n <= s.len() {
            lemma_no_pcm(s.skip(n));
            let tail = parse(s.skip(n), false).frames;
            assert forall|i: int| 0 <= i < parse(s, false).frames.len() implies (
            #[trigger] parse(s, false).frames[i]) is Command by {
                if i > 0 {
                    assert(tail[i - 1] is Command);
                }
            }
        }
    }
}

/// A connection.
pub struct Client {
    stream: bool,
    stage: ClientStage,
    queue: VecDeque<Frame>,
    reader: FrameReader,
}

impl View for Client {
    type V = ClientView;

    closed spec fn view(&self) -> ClientView {
        ClientView {
            stream: self.stream,
            stage: self.stage,
            queue: frame_views(self.queue@),
            rest: self.reader.rest(),
            bad: self.reader.failed(),
        }
    }
}

impl Client {
    /// The reader reads what this connection may carry.
    pub closed spec fn wf(&self) -> bool {
        self.reader.takes_pcm() == self.stream && client_ok(self@)
    }

    /// A connection that was admitted as a stream or for control.
    pub fn new(stream: bool) -> (c: Self)
        ensures
            c.wf(),
            c@ == client_start(stream),
    {
        let c = Client {
            stream,
            stage: ClientStage::Serving,
            queue: VecDeque::new(),
            reader: FrameReader::new(stream),
        };
        assert(c@.queue =~= Seq::empty());
        c
    }

    fn finish(&mut self) -> (a: ClientAction)
        requires
            old(self).wf(),
        ensures
            final(self).wf(),
            (final(self)@, a@) == client_end(old(self)@),
    {
        self.stage = ClientStage::End;
        ClientAction::Finish
    }

    fn wait(&mut self) -> (a: ClientAction)
        requires
            old(self).reader.takes_pcm() == old(self).stream,
            old(self)@.queue.len() == 0,
            !old(self)@.bad,
        ensures
            final(self).wf(),
            (final(self)@, a@) == client_wait(old(self)@),
    {
        if self.stream && self.reader.at_boundary() {
            self.stage = ClientStage::Waiting;
            ClientAction::Wait(WAIT_MS)
        } else {
            self.stage = ClientStage::Reading;
            ClientAction::Read(READ_BYTES)
        }
    }

    fn serve(&mut self) -> (a: ClientAction)
        requires
            old(self).reader.takes_pcm() == old(self).stream,
        ensures
            final(self).wf(),
            (final(self)@, a@) == client_serve(old(self)@),
    {
        let ghost before = self.queue@;
        match self.queue.pop_front() {
            Some(f) => {
                self.stage = ClientStage::Serving;
                assert(frame_views(self.queue@) =~= frame_views(before).skip(1));
                assert(frame_views(before)[0] == f@);
                match f {
                    Frame::Pcm(data) => ClientAction::Play(data),
                    Frame::Command(c) => {
                        if self.stream && c == Cmd::Flush {
                            ClientAction::Flush
                        } else {
                            ClientAction::Obey(c)
                        }
                    },
                }
            },
            None => {
                if self.reader.is_bad() {
                    self.stage = ClientStage::End;
                    ClientAction::Finish
                } else {
                    self.wait()
                }
            },
        }
    }

    fn take_in(&mut self, data: &[u8])
        requires
            old(self).reader.takes_pcm() == old(self).stream,
            old(self)@.queue.len() == 0,
            !old(self)@.bad,
        ensures
            final(self).reader.takes_pcm() == final(self).stream,
            final(self)@ == client_fed(old(self)@, data@),
    {
        let ghost v = self@;
        let mut fresh: Vec<Frame> = Vec::new();
        assert(frame_views(fresh@) =~= Seq::empty());
        self.reader.feed(data, &mut fresh);
        let ghost all = fresh@;
        let mut more = true;
        assert(self.queue@ =~= all.skip(all.len() as int));
        while more
            invariant
                fresh@ == all.take(fresh@.len() as int),
                fresh@.len() <= all.len(),
                self.queue@ == all.skip(fresh@.len() as int),
                self.stream == old(self).stream,
                self.stage == old(self).stage,
                self.reader.takes_pcm() == self.stream,
                self.reader.rest() == client_fed(v, data@).rest,
                self.reader.failed() == client_fed(v, data@).bad,
                !more ==> fresh@.len() == 0,
            decreases fresh@.len() + (if more {
                1int
            } else {
                0int
            }),
        {
            let ghost n = fresh@.len();
            match fresh.pop() {
                Some(f) => {
                    self.queue.push_front(f);
                    assert(self.queue@ =~= all.skip(n - 1));
                    assert(fresh@ =~= all.take(n - 1));
                },
                None => {
                    more = false;
                },
            }
        }
        assert(all.skip(0) =~= all);
        assert(self@.queue =~= v.queue + parse(v.rest + data@, v.stream).frames);
    }

    /// The next action, given what came of the last one and whether the server
    /// is to end.
    pub fn step(&mut self, ev: ClientEvent, shutdown: bool) -> (a: ClientAction)
        requires
            old(self).wf(),
        ensures
            final(self).wf(),
            (final(self)@, a@) == client_next(old(self)@, ev@, shutdown),
    {
        match self.stage {
            ClientStage::Serving => {
                if self.stream && shutdown {
                    return self.finish();
                }
                match ev {
                    ClientEvent::Failed => self.finish(),
                    _ => self.serve(),
                }
            },
            ClientStage::Waiting => {
                if shutdown {
                    return self.finish();
                }
                match ev {
                    ClientEvent::Failed => self.finish(),
                    ClientEvent::Ready => {
                        self.stage = ClientStage::Reading;
                        ClientAction::Read(READ_BYTES)
                    },
                    _ => self.wait(),
                }
            },
            ClientStage::Reading => match ev {
                ClientEvent::Data(data) => {
                    if data.len() == 0 {
                        self.finish()
                    } else {
                        self.take_in(data.as_slice());
                        self.serve()
                    }
                },
                ClientEvent::Failed => self.finish(),
                ClientEvent::Interrupted => {
                    if self.reader.in_audio() {
                        self.finish()
                    } else {
                        ClientAction::Read(READ_BYTES)
                    }
                },
                _ => ClientAction::Read(READ_BYTES),
            },
            ClientStage::End => self.finish(),
        }
    }
}

/// A frame is acted on as what it is: audio is played byte for byte, a flush on
/// a stream concerns that stream, and any other command is obeyed as it came.
pub proof fn law_frames_are_acted_on(stream: bool, data: Seq<u8>, c: Cmd)
    ensures
        asked(stream, FrameView::Pcm(data)) == ClientAsk::Play(data),
        asked(stream, FrameView::Command(c)) == ClientAsk::Flush <==> stream && c is Flush,
        asked(stream, FrameView::Command(c)) == ClientAsk::Obey(c) <==> !stream || !(c is Flush),
{
}

/// A connection that is not shut down goes on until it has a reason to end: its
/// peer has closed, an action has failed, a read was interrupted within audio,
/// or something bad has arrived and all before it was acted on.
pub proof fn law_end_needs_reason(v: ClientView, ev: ClientNews)
    requires
        client_ok(v),
        v.stage != ClientStage::End,
        client_next(v, ev, false).1 is Finish,
    ensures
        ({
            ||| ev is Failed
            ||| ev == ClientNews::Data(Seq::empty())
            ||| ev is Interrupted
            ||| v.bad && v.queue.len() == 0
            ||| ev is Data && parse(v.rest + ev->Data_0, v.stream).bad && parse(
                v.rest + ev->Data_0,
                v.stream,
            ).frames.len() == 0
        }),
{
    if v.stage == ClientStage::Reading && ev is Data {
        if ev->Data_0.len() == 0 {
            assert(ev->Data_0 =~= Seq::empty());
        } else {
            assert(client_fed(v, ev->Data_0).queue =~= parse(
                v.rest + ev->Data_0,
                v.stream,
            ).frames);
        }
    }
}

/// A connection begins with nothing and looks for something to read; between
/// frames a stream waits for it, 250 milliseconds at a time, and within a frame,
/// as on a control connection, it is read at once.
pub proof fn law_looks_for_more(v: ClientView, ev: ClientNews, data: Seq<u8>)
    requires
        client_ok(v),
    ensures
        client_start(v.stream).queue.len() == 0 && client_start(v.stream).rest.len() == 0
            && !client_start(v.stream).bad && client_start(v.stream).stream == v.stream
            && client_start(v.stream).stage == ClientStage::Serving,
        v.stage == ClientStage::Serving && !(ev is Failed) && v.queue.len() == 0 && !v.bad
            ==> client_next(v, ev, false).1 == if v.stream && v.rest.len() == 0 {
            ClientAsk::Wait(250)
        } else {
            ClientAsk::Read(8192)
        },
        v.stage == ClientStage::Waiting && ev is Ready ==> client_next(v, ev, false).1
            == ClientAsk::Read(8192),
        v.stage == ClientStage::Waiting && ev is Idle && v.stream && v.rest.len() == 0
            ==> client_next(v, ev, false) == (v, ClientAsk::Wait(250)),
        v.stage == ClientStage::Reading && data.len() > 0 && parse(
            v.rest + data,
            v.stream,
        ).frames.len() > 0 ==> client_next(v, ClientNews::Data(data), false).1 == asked(
            v.stream,
            parse(v.rest + data, v.stream).frames[0],
        ),
{
    if v.stage == ClientStage::Reading && data.len() > 0 {
        assert(client_fed(v, data).queue =~= parse(v.rest + data, v.stream).frames);
    }
}

/// An interrupted read is repeated, except within audio.
pub proof fn law_interrupted_read(v: ClientView)
    requires
        v.stage == ClientStage::Reading,
    ensures
        client_next(v, ClientNews::Interrupted, false).1 is Finish <==> v.rest.len() >= 4 && !(
        v.rest[0] == 0 && v.rest[1] == 0 && v.rest[2] == 0 && v.rest[3] == 0),
        client_next(v, ClientNews::Interrupted, false).1 is Finish || client_next(
            v,
            ClientNews::Interrupted,
            false,
        ) == (v, ClientAsk::Read(8192)),
{
}

/// What is said of an event or an action is said of what it carries.
pub proof fn law_events_are_what_they_carry(e: ClientEvent, a: ClientAction)
    ensures
        e matches ClientEvent::Data(b) ==> e@ == ClientNews::Data(b@),
        e is Done <==> e@ is Done,
        e is Idle <==> e@ is Idle,
        e is Ready <==> e@ is Ready,
        e is Interrupted <==> e@ is Interrupted,
        e is Failed <==> e@ is Failed,
        a matches ClientAction::Wait(ms) ==> a@ == ClientAsk::Wait(ms as int),
        a matches ClientAction::Read(n) ==> a@ == ClientAsk::Read(n as int),
        a matches ClientAction::Play(b) ==> a@ == ClientAsk::Play(b@),
        a matches ClientAction::Obey(c) ==> a@ == ClientAsk::Obey(c),
        a is Flush <==> a@ is Flush,
        a is Finish <==> a@ is Finish,
{
}

} // verus!
