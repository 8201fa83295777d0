//! The codec's topology dump: a walk over its nodes that reads what each one
//! is, what it can do and what it is connected to.
use super::codec::{
    valid_answer, widget_type, Codec, Verb, AC_PAR_AUDIO_WIDGET_CAP, AC_PAR_CONNLIST_LEN,
    AC_PAR_PIN_CAP, AC_PAR_STREAM_FORMATS, AC_WID_PIN, VERB_GET_CONNECT_LIST,
    VERB_GET_CONNECT_SEL, VERB_GET_PIN_SENSE, VERB_GET_PIN_WIDGET_CONTROL, VERB_PARAM,
};
use vstd::prelude::*;

verus! {

/// The highest node that the topology dump looks at.
pub const MAX_NID: u32 = 0x20;

/// What the topology dump shows of a pin.
#[derive(Clone, Copy, Debug, PartialEq, Eq, Structural)]
pub struct PinInfo {
    pub cap: u32,
    pub control: u32,
    pub sense: u32,
    pub presence: bool,
}

/// What the topology dump shows of a connection list.
pub struct ConnInfo {
    pub len: usize,
    pub sel: u32,
    /// The first eight connections at most.
    pub first: Vec<u32>,
}

/// What the topology dump shows of a node.
pub struct WidgetInfo {
    pub nid: u32,
    pub caps: u32,
    pub kind: u32,
    pub stereo: bool,
    pub in_amp: bool,
    pub out_amp: bool,
    pub stream: bool,
    pub pin: Option<PinInfo>,
    pub conn: Option<ConnInfo>,
}

/// What a kind of node is called.
pub open spec fn kind_name_of(kind: u32) -> Seq<char> {
    if kind == 0 {
        "OUT"@
    } else if kind == 1 {
        "IN"@
    } else if kind == 2 {
        "MIX"@
    } else if kind == 3 {
        "SEL"@
    } else if kind == 4 {
        "PIN"@
    } else if kind == 5 {
        "PWR"@
    } else if kind == 6 {
        "VOL"@
    } else if kind == 7 {
        "BEEP"@
    } else if kind == 0xe {
        "VENDOR"@
    } else {
        "??"@
    }
}

impl WidgetInfo {
    /// What the dump calls this kind of node.
    pub fn kind_name(&self) -> (s: &'static str)
        ensures
            s@ == kind_name_of(self.kind),
    {
        match self.kind {
            0 => "OUT",
            1 => "IN",
            2 => "MIX",
            3 => "SEL",
            4 => "PIN",
            5 => "PWR",
            6 => "VOL",
            7 => "BEEP",
            0xe => "VENDOR",
            _ => "??",
        }
    }
}

/// Whether a node has a connection list: bit 6 of its capabilities.
pub open spec fn has_connections(caps: u32) -> bool {
    caps / 64 % 2 == 1
}

/// Connection `i` in a connection list word, four bits each.
pub open spec fn connection(entries: u32, i: int) -> u32 {
    entries >> ((i * 4) as u32) & 0xf
}

/// What to ask of a node with these capabilities: its stream formats; of a
/// pin its capabilities, control and sense; of a node with connections their
/// number, selection and list.
pub open spec fn topology_queries(nid: u32, caps: u32) -> Seq<Verb> {
    seq![Verb { nid, verb: VERB_PARAM, payload: AC_PAR_STREAM_FORMATS }] + (if widget_type(caps)
        == AC_WID_PIN {
        seq![
            Verb { nid, verb: VERB_PARAM, payload: AC_PAR_PIN_CAP },
            Verb { nid, verb: VERB_GET_PIN_WIDGET_CONTROL, payload: 0 },
            Verb { nid, verb: VERB_GET_PIN_SENSE, payload: 0 },
        ]
    } else {
        Seq::empty()
    }) + (if has_connections(caps) {
        seq![
            Verb { nid, verb: VERB_PARAM, payload: AC_PAR_CONNLIST_LEN },
            Verb { nid, verb: VERB_GET_CONNECT_SEL, payload: 0 },
            Verb { nid, verb: VERB_GET_CONNECT_LIST, payload: 0 },
        ]
    } else {
        Seq::empty()
    })
}

/// The answer to query `i`, or `default` where there was none.
pub open spec fn answer(replies: Seq<Option<u32>>, i: int, default: u32) -> u32 {
    replies[i].unwrap_or(default)
}

/// Number of the first query about connections.
pub open spec fn conn_base(caps: u32) -> int {
    if widget_type(caps) == AC_WID_PIN {
        4
    } else {
        1
    }
}

/// Whether `w` is what the answers to the queries about a node say of it.
pub open spec fn describes(
    w: WidgetInfo,
    nid: u32,
    caps: u32,
    replies: Seq<Option<u32>>,
) -> bool {
    &&& w.nid == nid
    &&& w.caps == caps
    &&& w.kind == widget_type(caps)
    &&& w.stereo == (caps % 2 == 1)
    &&& w.in_amp == (caps / 2 % 2 == 1)
    &&& w.out_amp == (caps / 4 % 2 == 1)
    &&& w.stream == (answer(replies, 0, 0) != 0)
    &&& w.pin == if widget_type(caps) == AC_WID_PIN {
        Some(
            PinInfo {
                cap: answer(replies, 1, 0),
                control: answer(replies, 2, 0),
                sense: answer(replies, 3, 0),
                presence: answer(replies, 3, 0) >= 0x8000_0000,
            },
        )
    } else {
        None
    }
    &&& w.conn is Some <==> has_connections(caps)
    &&& w.conn matches Some(c) ==> {
        let b = conn_base(caps);
        &&& c.len == answer(replies, b, 0) % 0x80
        &&& c.sel == answer(replies, b + 1, 0xffff)
        &&& c.first@ == Seq::new(
            if c.len < 8 {
                c.len as nat
            } else {
                8
            },
            |i: int| connection(answer(replies, b + 2, 0), i),
        )
    }
}

/// What to ask of node `nid` with these capabilities.
fn node_queries(nid: u32, caps: u32) -> (q: Vec<Verb>)
    ensures
        q@ == topology_queries(nid, caps),
{
    let mut q = vec![Verb { nid, verb: VERB_PARAM, payload: AC_PAR_STREAM_FORMATS }];
    if caps / 0x10_0000 % 16 == AC_WID_PIN {
        q.push(Verb { nid, verb: VERB_PARAM, payload: AC_PAR_PIN_CAP });
        q.push(Verb { nid, verb: VERB_GET_PIN_WIDGET_CONTROL, payload: 0 });
        q.push(Verb { nid, verb: VERB_GET_PIN_SENSE, payload: 0 });
    }
    if caps / 64 % 2 == 1 {
        q.push(Verb { nid, verb: VERB_PARAM, payload: AC_PAR_CONNLIST_LEN });
        q.push(Verb { nid, verb: VERB_GET_CONNECT_SEL, payload: 0 });
        q.push(Verb { nid, verb: VERB_GET_CONNECT_LIST, payload: 0 });
    }
    assert(q@ =~= topology_queries(nid, caps));
    q
}

fn reply_or(replies: &[Option<u32>], i: usize, default: u32) -> (v: u32)
    requires
        i < replies@.len(),
    ensures
        v == answer(replies@, i as int, default),
{
    match replies[i] {
        Some(v) => v,
        None => default,
    }
}

// ── The walk ──
/// What the walk waits for.
#[derive(Clone, Copy, Debug, PartialEq, Eq, Structural)]
pub enum WalkStage {
    /// Nothing: the next step goes to the next node.
    Between,
    /// The capabilities of the node.
    Caps,
    /// The answer to a query about the node.
    Details,
}

/// The state of a walk: the node it is at, the node's capabilities, and the
/// answers so far.
pub ghost struct WalkView {
    pub stage: WalkStage,
    pub nid: u32,
    pub caps: u32,
    pub replies: Seq<Option<u32>>,
}

/// What the walk asks for.
pub enum WalkAction {
    /// Send this verb to the codec and hand its response back, if there is one.
    Send(Verb),
    /// Show this node.
    Show(WidgetInfo),
    /// All nodes were seen.
    Done,
}

/// What the walk asks for.
pub ghost enum WalkAsk {
    Send(Verb),
    /// Show the node with these capabilities and answers.
    Show(u32, u32, Seq<Option<u32>>),
    Done,
}

/// Whether an action does what is asked for.
pub open spec fn carries(a: WalkAction, ask: WalkAsk) -> bool {
    match ask {
        WalkAsk::Send(v) => a == WalkAction::Send(v),
        WalkAsk::Show(nid, caps, replies) => a matches WalkAction::Show(w) && describes(
            w,
            nid,
            caps,
            replies,
        ),
        WalkAsk::Done => a == WalkAction::Done,
    }
}

/// A walk that has not begun.
pub open spec fn walk_start() -> WalkView {
    WalkView { stage: WalkStage::Between, nid: 0, caps: 0, replies: Seq::empty() }
}

/// The question what node `nid` can do.
pub open spec fn caps_query(nid: u32) -> Verb {
    Verb { nid, verb: VERB_PARAM, payload: AC_PAR_AUDIO_WIDGET_CAP }
}

/// Go on to the next node.
pub open spec fn next_node(s: WalkView) -> (WalkView, WalkAsk) {
    if s.nid >= MAX_NID {
        (WalkView { stage: WalkStage::Between, ..s }, WalkAsk::Done)
    } else {
        let nid = (s.nid + 1) as u32;
        (WalkView { stage: WalkStage::Caps, nid, ..s }, WalkAsk::Send(caps_query(nid)))
    }
}

/// One step of the walk. A node without an answer, or with an empty one, is
/// passed over; of any other, every query is asked and the node is shown.
pub open spec fn walk_next(s: WalkView, reply: Option<u32>) -> (WalkView, WalkAsk) {
    match s.stage {
        WalkStage::Between => next_node(s),
        WalkStage::Caps => if reply matches Some(c) && valid_answer(c) {
            (
                WalkView {
                    stage: WalkStage::Details,
                    caps: reply->0,
                    replies: Seq::empty(),
                    ..s
                },
                WalkAsk::Send(topology_queries(s.nid, reply->0)[0]),
            )
        } else {
            next_node(s)
        },
        WalkStage::Details => {
            let queries = topology_queries(s.nid, s.caps);
            let replies = s.replies.push(reply);
            if replies.len() < queries.len() {
                (WalkView { replies, ..s }, WalkAsk::Send(queries[replies.len() as int]))
            } else {
                (
                    WalkView { stage: WalkStage::Between, replies, ..s },
                    WalkAsk::Show(s.nid, s.caps, replies),
                )
            }
        },
    }
}

/// A topology dump under way.
pub struct Walk {
    stage: WalkStage,
    nid: u32,
    caps: u32,
    queries: Vec<Verb>,
    replies: Vec<Option<u32>>,
}

impl View for Walk {
    type V = WalkView;

    closed spec fn view(&self) -> WalkView {
        WalkView {
            stage: self.stage,
            nid: self.nid,
            caps: self.caps,
            replies: self.replies@,
        }
    }
}

impl Walk {
    /// While a node is asked about, its queries are at hand and not all are
    /// answered.
    pub closed spec fn wf(&self) -> bool {
        self.stage == WalkStage::Details ==> {
            &&& self.queries@ == topology_queries(self.nid, self.caps)
            &&& self.replies@.len() < self.queries@.len()
        }
    }

    fn next_node(&mut self) -> (a: WalkAction)
        ensures
            final(self).wf(),
            final(self)@ == next_node(old(self)@).0,
            carries(a, next_node(old(self)@).1),
    {
        if self.nid >= MAX_NID {
            self.stage = WalkStage::Between;
            return WalkAction::Done;
        }
        self.nid = self.nid + 1;
        self.stage = WalkStage::Caps;
        WalkAction::Send(
            Verb { nid: self.nid, verb: VERB_PARAM, payload: AC_PAR_AUDIO_WIDGET_CAP },
        )
    }

    /// The next action, given the response to the last verb, if there was one.
    pub fn step(&mut self, reply: Option<u32>) -> (a: WalkAction)
        requires
            old(self).wf(),
        ensures
            final(self).wf(),
            final(self)@ == walk_next(old(self)@, reply).0,
            carries(a, walk_next(old(self)@, reply).1),
    {
        match self.stage {
            WalkStage::Between => self.next_node(),
            WalkStage::Caps => {
                let caps: u32 = match reply {
                    Some(c) => c,
                    None => {
                        return self.next_node();
                    },
                };
                if caps == 0 || caps == 0xffff_ffff {
                    return self.next_node();
                }
                self.stage = WalkStage::Details;
                self.caps = caps;
                self.queries = node_queries(self.nid, caps);
                self.replies = Vec::new();
                assert(self@.replies =~= Seq::empty());
                WalkAction::Send(self.queries[0])
            },
            WalkStage::Details => {
                self.replies.push(reply);
                if self.replies.len() < self.queries.len() {
                    WalkAction::Send(self.queries[self.replies.len()])
                } else {
                    self.stage = WalkStage::Between;
                    WalkAction::Show(
                        Codec::decode_widget(self.nid, self.caps, self.replies.as_slice()),
                    )
                }
            },
        }
    }
}

impl Codec {
    /// Begin a topology dump of the selected codec: nodes 0x01 to 0x20.
    pub fn dump_topology() -> (w: Walk)
        ensures
            w.wf(),
            w@ == walk_start(),
    {
        let w = Walk {
            stage: WalkStage::Between,
            nid: 0,
            caps: 0,
            queries: Vec::new(),
            replies: Vec::new(),
        };
        assert(w@.replies =~= Seq::empty());
        w
    }

    /// What a node is, from its capabilities and the answers to the queries
    /// in `topology_queries` (`None` where there was no answer).
    pub fn decode_widget(nid: u32, caps: u32, replies: &[Option<u32>]) -> (w: WidgetInfo)
        requires
            replies@.len() == topology_queries(nid, caps).len(),
        ensures
            describes(w, nid, caps, replies@),
    {
        let kind: u32 = caps / 0x10_0000 % 16;
        let pin = if kind == AC_WID_PIN {
            let sense: u32 = reply_or(replies, 3, 0);
            Some(
                PinInfo {
                    cap: reply_or(replies, 1, 0),
                    control: reply_or(replies, 2, 0),
                    sense,
                    presence: sense >= 0x8000_0000,
                },
            )
        } else {
            None
        };
        let conn = if caps / 64 % 2 == 1 {
            let b: usize = if kind == AC_WID_PIN {
                4
            } else {
                1
            };
            let len: usize = (reply_or(replies, b, 0) % 0x80) as usize;
            let sel: u32 = reply_or(replies, b + 1, 0xffff);
            let entries: u32 = reply_or(replies, b + 2, 0);
            let n: u32 = if len < 8 {
                len as u32
            } else {
                8
            };
            let mut first: Vec<u32> = Vec::new();
            let mut i: u32 = 0;
            while i < n
                invariant
                    i <= n <= 8,
                    first@ == Seq::new(i as nat, |k: int| connection(entries, k)),
                decreases n - i,
            {
                first.push((entries >> (i * 4)) & 0xf);
                i = i + 1;
                assert(first@ =~= Seq::new(i as nat, |k: int| connection(entries, k)));
            }
            Some(ConnInfo { len, sel, first })
        } else {
            None
        };
        WidgetInfo {
            nid,
            caps,
            kind,
            stereo: caps % 2 == 1,
            in_amp: caps / 2 % 2 == 1,
            out_amp: caps / 4 % 2 == 1,
            stream: reply_or(replies, 0, 0) != 0,
            pin,
            conn,
        }
    }
}

// ── Laws ──
/// The dump only reads: no verb that it sends changes anything in the codec.
pub proof fn law_walk_only_reads(s: WalkView, reply: Option<u32>)
    requires
        s.stage == WalkStage::Details ==> s.replies.len() < topology_queries(s.nid, s.caps).len(),
    ensures
        walk_next(s, reply).1 matches WalkAsk::Send(v) ==> {
            ||| v.verb == VERB_PARAM
            ||| v.verb == VERB_GET_PIN_WIDGET_CONTROL
            ||| v.verb == VERB_GET_PIN_SENSE
            ||| v.verb == VERB_GET_CONNECT_SEL
            ||| v.verb == VERB_GET_CONNECT_LIST
        },
{
}

/// Everything that a walk asks for, in order, up to `fuel` steps, when the
/// codec answers by `ask`.
pub open spec fn walk_run(
    s: WalkView,
    reply: Option<u32>,
    ask: spec_fn(Verb) -> Option<u32>,
    fuel: nat,
) -> Seq<WalkAsk>
    decreases fuel,
{
    if fuel == 0 {
        Seq::empty()
    } else {
        let (t, a) = walk_next(s, reply);
        match a {
            WalkAsk::Send(v) => seq![a] + walk_run(t, ask(v), ask, (fuel - 1) as nat),
            WalkAsk::Show(_, _, _) => seq![a] + walk_run(t, None, ask, (fuel - 1) as nat),
            WalkAsk::Done => seq![a],
        }
    }
}

/// The queries about a node from number `i` on, and then the node, shown with
/// the answers to all of them.
pub open spec fn details_from(
    nid: u32,
    caps: u32,
    ask: spec_fn(Verb) -> Option<u32>,
    i: int,
) -> Seq<WalkAsk> {
    let queries = topology_queries(nid, caps);
    queries.skip(i).map_values(|v: Verb| WalkAsk::Send(v)) + seq![
        WalkAsk::Show(nid, caps, queries.map_values(ask)),
    ]
}

/// All that is asked for about a node.
pub open spec fn visit(nid: u32, ask: spec_fn(Verb) -> Option<u32>) -> Seq<WalkAsk> {
    seq![WalkAsk::Send(caps_query(nid))] + match ask(caps_query(nid)) {
        Some(caps) => if valid_answer(caps) {
            details_from(nid, caps, ask, 0)
        } else {
            Seq::empty()
        },
        None => Seq::empty(),
    }
}

/// The visits of all nodes from `nid` on, each once and in order, and the end.
pub open spec fn visits_from(nid: u32, ask: spec_fn(Verb) -> Option<u32>) -> Seq<WalkAsk>
    decreases MAX_NID + 1 - nid,
{
    if nid > MAX_NID {
        seq![WalkAsk::Done]
    } else {
        visit(nid, ask) + visits_from((nid + 1) as u32, ask)
    }
}

proof fn lemma_walk_details(
    s: WalkView,
    ask: spec_fn(Verb) -> Option<u32>,
    fuel: nat,
)
    requires
        s.stage == WalkStage::Details,
        s.nid <= MAX_NID,
        s.replies.len() < topology_queries(s.nid, s.caps).len(),
        s.replies == topology_queries(s.nid, s.caps).take(s.replies.len() as int).map_values(ask),
        fuel >= topology_queries(s.nid, s.caps).len() - s.replies.len() + 9 * (MAX_NID - s.nid)
            + 1,
    ensures
        walk_run(s, ask(topology_queries(s.nid, s.caps)[s.replies.len() as int]), ask, fuel)
            == details_from(s.nid, s.caps, ask, s.replies.len() + 1int) + visits_from(
            (s.nid + 1) as u32,
            ask,
        ),
    decreases MAX_NID - s.nid, 1int, fuel,
{
    let queries = topology_queries(s.nid, s.caps);
    let i = s.replies.len() as int;
    let reply = ask(queries[i]);
    let (t, a) = walk_next(s, reply);
    assert(t.replies =~= queries.take(i + 1).map_values(ask));
    let rest = visits_from((s.nid + 1) as u32, ask);
    if i + 1 < queries.len() {
        lemma_walk_details(t, ask, (fuel - 1) as nat);
        assert(seq![a] + (details_from(s.nid, s.caps, ask, i + 2) + rest) =~= details_from(
            s.nid,
            s.caps,
            ask,
            i + 1,
        ) + rest);
    } else {
        assert(queries.take(i + 1) =~= queries);
        lemma_walk_between(t, None, ask, (fuel - 1) as nat);
        assert(seq![a] + rest =~= details_from(s.nid, s.caps, ask, i + 1) + rest);
    }
}

proof fn lemma_walk_between(
    s: WalkView,
    reply: Option<u32>,
    ask: spec_fn(Verb) -> Option<u32>,
    fuel: nat,
)
    requires
        s.stage == WalkStage::Between || (s.stage == WalkStage::Caps && !(reply matches Some(c)
            && valid_answer(c))),
        s.nid <= MAX_NID,
        fuel >= 9 * (MAX_NID - s.nid) + 1,
    ensures
        walk_run(s, reply, ask, fuel) == visits_from((s.nid + 1) as u32, ask),
    decreases MAX_NID - s.nid, 0int, fuel,
{
    let (t, a) = walk_next(s, reply);
    if s.nid < MAX_NID {
        let nid = t.nid;
        let caps = ask(caps_query(nid));
        let rest = visits_from((nid + 1) as u32, ask);
        if caps matches Some(c) && valid_answer(c) {
            let c = caps->0;
            let (u, b) = walk_next(t, caps);
            let queries = topology_queries(nid, c);
            assert(u.replies =~= queries.take(0).map_values(ask));
            lemma_walk_details(u, ask, (fuel - 2) as nat);
            assert(walk_run(t, caps, ask, (fuel - 1) as nat) == seq![b] + (details_from(
                nid,
                c,
                ask,
                1,
            ) + rest));
            assert(seq![a] + (seq![b] + (details_from(nid, c, ask, 1) + rest)) =~= visit(nid, ask)
                + rest);
        } else {
            lemma_walk_between(t, caps, ask, (fuel - 1) as nat);
            assert(seq![a] + rest =~= visit(nid, ask) + rest);
        }
    }
}

/// The dump visits nodes 0x01 to 0x20, each once and in order, and ends: of
/// each node it asks what it can do, and of each that answers all else, to show
/// it with those answers. That takes a bounded number of steps.
pub proof fn law_walk_visits_every_node(ask: spec_fn(Verb) -> Option<u32>, fuel: nat)
    requires
        fuel >= 9 * MAX_NID + 1,
    ensures
        walk_run(walk_start(), None, ask, fuel) == visits_from(1, ask),
{
    lemma_walk_between(walk_start(), None, ask, fuel);
}

/// What is asked of a node: its stream formats, and of a pin and of a node with
/// connections what only those have. Nothing is asked twice, and all of it goes
/// to that node.
pub proof fn law_node_queries(nid: u32, caps: u32)
    ensures
        ({
            let q = topology_queries(nid, caps);
            let ask = |at: int, verb: u32, payload: u32| q[at] == Verb { nid, verb, payload };
            let pin = caps / 0x10_0000 % 16 == 4;
            let conn = caps / 64 % 2 == 1;
            let b = if pin {
                4int
            } else {
                1
            };
            &&& q.len() == b + (if conn { 3int } else { 0 })
            &&& ask(0, 0xf00, 0x0b)
            &&& pin ==> ask(1, 0xf00, 0x0c) && ask(2, 0xf07, 0) && ask(3, 0x709, 0)
            &&& conn ==> ask(b, 0xf00, 0x0e) && ask(b + 1, 0xf01, 0) && ask(b + 2, 0xf02, 0)
        }),
        caps_query(nid) == (Verb { nid, verb: 0xf00, payload: 9 }),
{
}

/// What is shown of a node is what it answered, and its capabilities bit by bit.
pub proof fn law_node_is_shown(w: WidgetInfo, nid: u32, caps: u32, replies: Seq<Option<u32>>)
    requires
        describes(w, nid, caps, replies),
        replies.len() == topology_queries(nid, caps).len(),
    ensures
        w.nid == nid && w.caps == caps,
        w.stereo <==> caps & 1 != 0,
        w.in_amp <==> caps & 2 != 0,
        w.out_amp <==> caps & 4 != 0,
        w.conn is Some <==> caps & 0x40 != 0,
        w.kind == (caps >> 20) & 0xf,
        w.pin is Some <==> w.kind == 4,
        w.stream <==> (replies[0] matches Some(v) && v != 0),
        w.pin matches Some(p) ==> {
            &&& replies[1] matches Some(v) ==> p.cap == v
            &&& replies[2] matches Some(v) ==> p.control == v
            &&& replies[3] matches Some(v) ==> p.sense == v
            &&& p.presence <==> p.sense & 0x8000_0000 != 0
        },
        w.conn matches Some(c) ==> {
            let b = if w.kind == 4 {
                4int
            } else {
                1
            };
            &&& replies[b] matches Some(v) ==> c.len == v & 0x7f
            &&& replies[b + 1] matches Some(v) ==> c.sel == v
            &&& replies[b + 1] is None ==> c.sel == 0xffff
            &&& c.first@.len() == c.len || (c.first@.len() == 8 && c.len > 8)
            &&& replies[b + 2] matches Some(v) ==> forall|i: int|
                0 <= i < c.first@.len() ==> #[trigger] c.first@[i] == (v >> ((4 * i) as u32)) & 0xf
        },
{
    assert((caps & 1 != 0 <==> caps % 2 == 1) && (caps & 2 != 0 <==> caps / 2 % 2 == 1) && (caps & 4
        != 0 <==> caps / 4 % 2 == 1) && (caps & 0x40 != 0 <==> caps / 64 % 2 == 1) && (caps >> 20)
        & 0xf == caps / 0x10_0000 % 16) by (bit_vector);
    if let Some(p) = w.pin {
        let s = p.sense;
        assert(s & 0x8000_0000 != 0 <==> s >= 0x8000_0000) by (bit_vector);
    }
    if let Some(c) = w.conn {
        let b = conn_base(caps);
        if let Some(v) = replies[b] {
            assert(v & 0x7f == v % 0x80) by (bit_vector);
        }
    }
}

/// The names of the kinds of nodes, in the order of their numbers.
pub proof fn law_kind_names(kind: u32)
    ensures
        ({
            let names = seq!["OUT"@, "IN"@, "MIX"@, "SEL"@, "PIN"@, "PWR"@, "VOL"@, "BEEP"@];
            kind_name_of(kind) == if kind < names.len() {
                names[kind as int]
            } else if kind == 0xe {
                "VENDOR"@
            } else {
                "??"@
            }
        }),
{
}

/// An action does what is asked for and nothing else.
pub proof fn law_actions_carry(a: WalkAction, v: Verb, nid: u32, caps: u32, r: Seq<Option<u32>>)
    ensures
        carries(a, WalkAsk::Send(v)) <==> a == WalkAction::Send(v),
        carries(a, WalkAsk::Done) <==> a is Done,
        carries(a, WalkAsk::Show(nid, caps, r)) <==> (a matches WalkAction::Show(w) && describes(
            w,
            nid,
            caps,
            r,
        )),
{
}

} // verus!
