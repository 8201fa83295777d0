//! Codec (Realtek ALC269VC) probing and playback path setup.
//!
//! Node map:
//!
//!   0x01  Audio Function Group (AFG)
//!   0x02  DAC for speaker
//!   0x03  DAC for headphone
//!   0x0c  Mixer before the speaker pin
//!   0x0d  Mixer before the headphone pin
//!   0x14  Pin speaker
//!   0x15  Pin headphone
//!
//! Paths: DAC 0x02, mux 0x0c, pin 0x14 (speaker); DAC 0x03, mux 0x0d, pin
//! 0x15 (headphone). Codec verbs come out as values; whoever runs the command
//! engine hands the responses back.
use vstd::prelude::*;

verus! {

/// Vendor, subsystem and revision live at the root node.
pub const NID_ROOT: u32 = 0x00;

pub const NID_AFG: u32 = 0x01;

pub const NID_DAC_SPK: u32 = 0x02;

pub const NID_DAC_HP: u32 = 0x03;

pub const NID_MUX_SPK: u32 = 0x0c;

pub const NID_MUX_HP: u32 = 0x0d;

pub const NID_PIN_SPK: u32 = 0x14;

pub const NID_PIN_HP: u32 = 0x15;

pub const AC_PAR_VENDOR_ID: u32 = 0x00;

pub const AC_PAR_SUBSYSTEM_ID: u32 = 0x01;

pub const AC_PAR_REV_ID: u32 = 0x02;

pub const AC_PAR_AUDIO_WIDGET_CAP: u32 = 0x09;

/// Non-zero when the widget is a converter.
pub const AC_PAR_STREAM_FORMATS: u32 = 0x0b;

pub const AC_PAR_PIN_CAP: u32 = 0x0c;

/// The low seven bits are the number of connections.
pub const AC_PAR_CONNLIST_LEN: u32 = 0x0e;

pub const AC_WID_AUD_OUT: u32 = 0x0;

pub const AC_WID_AUD_MIX: u32 = 0x2;

pub const AC_WID_AUD_SEL: u32 = 0x3;

pub const AC_WID_PIN: u32 = 0x4;

pub const VERB_PARAM: u32 = 0xf00;

pub const VERB_GET_SUBSYSTEM_ID: u32 = 0xf20;

pub const VERB_SET_AMP_GAIN_MUTE: u32 = 0x300;

pub const VERB_GET_AMP_GAIN_MUTE: u32 = 0xb00;

pub const VERB_GET_PIN_SENSE: u32 = 0x709;

pub const VERB_GET_CONNECT_SEL: u32 = 0xf01;

pub const VERB_SET_CONNECT_SEL: u32 = 0x701;

pub const VERB_GET_POWER_STATE: u32 = 0xf05;

pub const VERB_SET_POWER_STATE: u32 = 0x705;

pub const VERB_GET_CHANNEL_STREAMID: u32 = 0xf06;

pub const VERB_SET_CHANNEL_STREAMID: u32 = 0x706;

pub const VERB_GET_PIN_WIDGET_CONTROL: u32 = 0xf07;

pub const VERB_SET_PIN_WIDGET_CONTROL: u32 = 0x707;

pub const VERB_GET_STREAM_FORMAT: u32 = 0xa00;

pub const VERB_SET_STREAM_FORMAT: u32 = 0x200;

pub const VERB_GET_EAPD_BTLENABLE: u32 = 0xf0c;

pub const VERB_SET_EAPD_BTLENABLE: u32 = 0x70c;

pub const VERB_GET_CONNECT_LIST: u32 = 0xf02;

pub const AC_PWRST_D0: u32 = 0x00;

/// Output amp, both channels.
pub const AC_AMP_OUT_BOTH: u32 = 0xb000;

/// Input amp, both channels.
pub const AC_AMP_IN_BOTH: u32 = 0x3000;

pub const AC_AMP_MUTE: u32 = 0x80;

/// Left channel of the output amp, for reading.
pub const AC_AMP_GET_OUT_LEFT: u32 = 0xa000;

pub const AC_EAPD: u32 = 0x02;

pub const AC_PIN_OUT: u32 = 0x40;

pub const AC_PIN_OUT_HP: u32 = 0xc0;

/// Unmuted output amp gain, about 0 dB.
pub const DEFAULT_GAIN: u32 = 0x44;

/// A verb for one node of the selected codec.
#[derive(Clone, Copy, Debug, PartialEq, Eq, Structural)]
pub struct Verb {
    pub nid: u32,
    pub verb: u32,
    pub payload: u32,
}

/// What a codec calls itself.
#[derive(Clone, Copy, Debug, PartialEq, Eq, Structural)]
pub struct Codec {
    pub vendor_id: u32,
    pub subsystem_id: u32,
}

// ── Probe ──
/// Whether an answer to VENDOR_ID comes from a codec.
pub open spec fn valid_answer(v: u32) -> bool {
    v != 0 && v != 0xffff_ffff
}

/// Whether a codec is present in the mask.
pub open spec fn present(mask: u16, cad: int) -> bool {
    if cad == 0 {
        mask % 2 == 1
    } else if cad == 1 {
        mask / 2 % 2 == 1
    } else if cad == 2 {
        mask / 4 % 2 == 1
    } else {
        mask / 8 % 2 == 1
    }
}

/// Whether a codec is made by Realtek.
pub open spec fn is_realtek(c: Codec) -> bool {
    c.vendor_id / 0x1_0000 == 0x10ec
}

/// A verb for one codec.
#[derive(Clone, Copy, Debug, PartialEq, Eq, Structural)]
pub struct Query {
    pub cad: u32,
    pub verb: Verb,
}

/// A codec that answered, and its address.
#[derive(Clone, Copy, Debug, PartialEq, Eq, Structural)]
pub struct Found {
    pub cad: u32,
    pub codec: Codec,
}

#[derive(Clone, Copy, Debug, PartialEq, Eq, Structural)]
pub enum ProbeStage {
    Begin,
    Vendor,
    Subsystem,
    Revision,
    AfgSubsystem,
}

/// The state of a probe.
#[derive(Clone, Copy, Debug, PartialEq, Eq, Structural)]
pub struct Probe {
    pub mask: u16,
    pub stage: ProbeStage,
    pub cad: u32,
    pub vendor: u32,
    pub subsystem: u32,
    pub realtek: Option<Found>,
    pub fallback: Option<Found>,
}

#[derive(Clone, Copy, Debug, PartialEq, Eq, Structural)]
pub enum ProbeAction {
    Send(Query),
    Found(Found),
    NoCodec,
}

pub open spec fn query(cad: int, nid: u32, verb: u32, payload: u32) -> Query {
    Query { cad: cad as u32, verb: Verb { nid, verb, payload } }
}

/// The state that a probe begins in.
pub open spec fn probe_start(mask: u16) -> Probe {
    Probe {
        mask,
        stage: ProbeStage::Begin,
        cad: 0,
        vendor: 0,
        subsystem: 0,
        realtek: None,
        fallback: None,
    }
}

/// The first present codec from `k` on; 4 if there is none.
pub open spec fn first_present(mask: u16, k: int) -> int
    decreases 4 - k,
{
    if k >= 4 {
        4
    } else if present(mask, k) {
        k
    } else {
        first_present(mask, k + 1)
    }
}

/// Go on with the codecs from `k` on.
pub open spec fn probe_seek(s: Probe, k: int) -> (Probe, ProbeAction) {
    let c = first_present(s.mask, k);
    let t = Probe { stage: ProbeStage::Vendor, cad: c as u32, ..s };
    if c < 4 {
        (t, ProbeAction::Send(query(c, NID_ROOT, VERB_PARAM, AC_PAR_VENDOR_ID)))
    } else {
        (
            t,
            match (s.realtek, s.fallback) {
                (Some(f), _) => ProbeAction::Found(f),
                (None, Some(f)) => ProbeAction::Found(f),
                (None, None) => ProbeAction::NoCodec,
            },
        )
    }
}

/// Take the current codec into account.
pub open spec fn probe_offer(s: Probe) -> Probe {
    let codec = Codec { vendor_id: s.vendor, subsystem_id: s.subsystem };
    let found = Found { cad: s.cad, codec };
    if is_realtek(codec) && s.realtek is None {
        Probe { realtek: Some(found), ..s }
    } else if s.fallback is None {
        Probe { fallback: Some(found), ..s }
    } else {
        s
    }
}

/// One step of a probe, given the answer to the last query (`None` if there
/// was none).
pub open spec fn probe_next(s: Probe, reply: Option<u32>) -> (Probe, ProbeAction) {
    match s.stage {
        ProbeStage::Begin => probe_seek(s, 0),
        ProbeStage::Vendor => if reply matches Some(v) && valid_answer(v) {
            (
                Probe { stage: ProbeStage::Subsystem, vendor: reply->0, ..s },
                ProbeAction::Send(query(s.cad as int, NID_ROOT, VERB_PARAM, AC_PAR_SUBSYSTEM_ID)),
            )
        } else {
            probe_seek(s, s.cad + 1)
        },
        ProbeStage::Subsystem => (
            Probe { stage: ProbeStage::Revision, subsystem: reply.unwrap_or(0), ..s },
            ProbeAction::Send(query(s.cad as int, NID_ROOT, VERB_PARAM, AC_PAR_REV_ID)),
        ),
        ProbeStage::Revision => if s.subsystem == 0 {
            (
                Probe { stage: ProbeStage::AfgSubsystem, ..s },
                ProbeAction::Send(query(s.cad as int, NID_AFG, VERB_GET_SUBSYSTEM_ID, 0)),
            )
        } else {
            probe_seek(probe_offer(s), s.cad + 1)
        },
        ProbeStage::AfgSubsystem => probe_seek(
            probe_offer(Probe { subsystem: reply.unwrap_or(0), ..s }),
            s.cad + 1,
        ),
    }
}

impl Probe {
    fn seek(&mut self, k: u32) -> (a: ProbeAction)
        requires
            k <= 4,
        ensures
            (*final(self), a) == probe_seek(*old(self), k as int),
            a is Send ==> final(self).cad < 4,
    {
        let mut c: u32 = k;
        while c < 4 && !self.has(c)
            invariant
                k <= c <= 4,
                *self == *old(self),
                first_present(self.mask, k as int) == first_present(self.mask, c as int),
            decreases 4 - c,
        {
            c = c + 1;
        }
        self.stage = ProbeStage::Vendor;
        self.cad = c;
        if c < 4 {
            return ProbeAction::Send(
                Query {
                    cad: c,
                    verb: Verb { nid: NID_ROOT, verb: VERB_PARAM, payload: AC_PAR_VENDOR_ID },
                },
            );
        }
        match self.realtek {
            Some(f) => ProbeAction::Found(f),
            None => match self.fallback {
                Some(f) => ProbeAction::Found(f),
                None => ProbeAction::NoCodec,
            },
        }
    }

    fn has(&self, cad: u32) -> (b: bool)
        ensures
            b == present(self.mask, cad as int),
    {
        if cad == 0 {
            self.mask % 2 == 1
        } else if cad == 1 {
            self.mask / 2 % 2 == 1
        } else if cad == 2 {
            self.mask / 4 % 2 == 1
        } else {
            self.mask / 8 % 2 == 1
        }
    }

    fn offer(&mut self)
        ensures
            *final(self) == probe_offer(*old(self)),
    {
        let codec = Codec { vendor_id: self.vendor, subsystem_id: self.subsystem };
        let found = Found { cad: self.cad, codec };
        if self.vendor / 0x1_0000 == 0x10ec && self.realtek.is_none() {
            self.realtek = Some(found);
        } else if self.fallback.is_none() {
            self.fallback = Some(found);
        }
    }

    /// The next query, given the answer to the last one (`None` if there was
    /// none), or the outcome.
    pub fn step(&mut self, reply: Option<u32>) -> (a: ProbeAction)
        requires
            old(self).cad < 4,
        ensures
            (*final(self), a) == probe_next(*old(self), reply),
            a is Send ==> final(self).cad < 4,
    {
        let value: u32 = match reply {
            Some(v) => v,
            None => 0,
        };
        let cad: u32 = self.cad;
        match self.stage {
            ProbeStage::Begin => self.seek(0),
            ProbeStage::Vendor => {
                if value != 0 && value != 0xffff_ffff {
                    self.stage = ProbeStage::Subsystem;
                    self.vendor = value;
                    ProbeAction::Send(
                        Query {
                            cad,
                            verb: Verb {
                                nid: NID_ROOT,
                                verb: VERB_PARAM,
                                payload: AC_PAR_SUBSYSTEM_ID,
                            },
                        },
                    )
                } else {
                    self.seek(cad + 1)
                }
            },
            ProbeStage::Subsystem => {
                self.stage = ProbeStage::Revision;
                self.subsystem = value;
                ProbeAction::Send(
                    Query {
                        cad,
                        verb: Verb { nid: NID_ROOT, verb: VERB_PARAM, payload: AC_PAR_REV_ID },
                    },
                )
            },
            ProbeStage::Revision => {
                if self.subsystem == 0 {
                    self.stage = ProbeStage::AfgSubsystem;
                    ProbeAction::Send(
                        Query {
                            cad,
                            verb: Verb { nid: NID_AFG, verb: VERB_GET_SUBSYSTEM_ID, payload: 0 },
                        },
                    )
                } else {
                    self.offer();
                    self.seek(cad + 1)
                }
            },
            ProbeStage::AfgSubsystem => {
                self.subsystem = value;
                self.offer();
                self.seek(cad + 1)
            },
        }
    }
}

/// What the codec at `cad` is, if it answers `ask` as a codec does.
pub open spec fn codec_at(ask: spec_fn(Query) -> Option<u32>, cad: int) -> Option<Codec> {
    match ask(query(cad, NID_ROOT, VERB_PARAM, AC_PAR_VENDOR_ID)) {
        Some(v) => if valid_answer(v) {
            let root = ask(query(cad, NID_ROOT, VERB_PARAM, AC_PAR_SUBSYSTEM_ID)).unwrap_or(0);
            let afg = ask(query(cad, NID_AFG, VERB_GET_SUBSYSTEM_ID, 0)).unwrap_or(0);
            Some(
                Codec {
                    vendor_id: v,
                    subsystem_id: if root == 0 {
                        afg
                    } else {
                        root
                    },
                },
            )
        } else {
            None
        },
        None => None,
    }
}

/// Whether a codec answers at `cad`.
pub open spec fn answers(mask: u16, ask: spec_fn(Query) -> Option<u32>, cad: int) -> bool {
    0 <= cad < 4 && present(mask, cad) && codec_at(ask, cad) is Some
}

/// Whether a Realtek codec answers at `cad`.
pub open spec fn realtek_answers(mask: u16, ask: spec_fn(Query) -> Option<u32>, cad: int) -> bool {
    answers(mask, ask, cad) && is_realtek(codec_at(ask, cad)->0)
}

/// How a whole probe ends when the codecs answer as `ask` says, or `None` if
/// it takes more than `fuel` queries.
pub open spec fn probe_run(
    s: Probe,
    reply: Option<u32>,
    ask: spec_fn(Query) -> Option<u32>,
    fuel: nat,
) -> Option<ProbeAction>
    decreases fuel,
{
    let (t, a) = probe_next(s, reply);
    match a {
        ProbeAction::Send(q) => if fuel == 0 {
            None
        } else {
            probe_run(t, ask(q), ask, (fuel - 1) as nat)
        },
        _ => Some(a),
    }
}

/// The rest of a probe that goes on with the codecs from `k` on.
spec fn seek_run(s: Probe, k: int, ask: spec_fn(Query) -> Option<u32>, fuel: nat) -> Option<
    ProbeAction,
> {
    let (t, a) = probe_seek(s, k);
    match a {
        ProbeAction::Send(q) => if fuel == 0 {
            None
        } else {
            probe_run(t, ask(q), ask, (fuel - 1) as nat)
        },
        _ => Some(a),
    }
}

/// The choice that a probe makes of the codecs from `k` on, on top of what it
/// has found before.
spec fn choice(
    mask: u16,
    ask: spec_fn(Query) -> Option<u32>,
    k: int,
    realtek: Option<Found>,
    fallback: Option<Found>,
) -> (Option<Found>, Option<Found>)
    decreases 4 - k,
{
    if k >= 4 {
        (realtek, fallback)
    } else if !answers(mask, ask, k) {
        choice(mask, ask, k + 1, realtek, fallback)
    } else {
        let found = Found { cad: k as u32, codec: codec_at(ask, k)->0 };
        if is_realtek(found.codec) && realtek is None {
            choice(mask, ask, k + 1, Some(found), fallback)
        } else if fallback is None {
            choice(mask, ask, k + 1, realtek, Some(found))
        } else {
            choice(mask, ask, k + 1, realtek, fallback)
        }
    }
}

proof fn lemma_seek_run(s: Probe, k: int, ask: spec_fn(Query) -> Option<u32>, fuel: nat)
    requires
        0 <= k <= 4,
        fuel >= 4 * (4 - k),
    ensures
        ({
            let (r, f) = choice(s.mask, ask, k, s.realtek, s.fallback);
            seek_run(s, k, ask, fuel) == Some(
                match (r, f) {
                    (Some(x), _) => ProbeAction::Found(x),
                    (None, Some(x)) => ProbeAction::Found(x),
                    (None, None) => ProbeAction::NoCodec,
                },
            )
        }),
    decreases 4 - k,
{
    if k < 4 {
        if !present(s.mask, k) {
            lemma_seek_run(s, k + 1, ask, fuel);
        } else {
            let s1 = Probe { stage: ProbeStage::Vendor, cad: k as u32, ..s };
            let q1 = query(k, NID_ROOT, VERB_PARAM, AC_PAR_VENDOR_ID);
            let q2 = query(k, NID_ROOT, VERB_PARAM, AC_PAR_SUBSYSTEM_ID);
            let q3 = query(k, NID_ROOT, VERB_PARAM, AC_PAR_REV_ID);
            let q4 = query(k, NID_AFG, VERB_GET_SUBSYSTEM_ID, 0);
            assert(seek_run(s, k, ask, fuel) == probe_run(s1, ask(q1), ask, (fuel - 1) as nat));
            if codec_at(ask, k) is None {
                assert(probe_run(s1, ask(q1), ask, (fuel - 1) as nat) == seek_run(
                    s1,
                    k + 1,
                    ask,
                    (fuel - 1) as nat,
                ));
                lemma_seek_run(s1, k + 1, ask, (fuel - 1) as nat);
            } else {
                let v = ask(q1)->0;
                let s2 = Probe { stage: ProbeStage::Subsystem, vendor: v, ..s1 };
                assert(probe_run(s1, ask(q1), ask, (fuel - 1) as nat) == probe_run(
                    s2,
                    ask(q2),
                    ask,
                    (fuel - 2) as nat,
                ));
                let s3 = Probe {
                    stage: ProbeStage::Revision,
                    subsystem: ask(q2).unwrap_or(0),
                    ..s2
                };
                assert(probe_run(s2, ask(q2), ask, (fuel - 2) as nat) == probe_run(
                    s3,
                    ask(q3),
                    ask,
                    (fuel - 3) as nat,
                ));
                if s3.subsystem == 0 {
                    let s4 = Probe { stage: ProbeStage::AfgSubsystem, ..s3 };
                    assert(probe_run(s3, ask(q3), ask, (fuel - 3) as nat) == probe_run(
                        s4,
                        ask(q4),
                        ask,
                        (fuel - 4) as nat,
                    ));
                    let s5 = probe_offer(Probe { subsystem: ask(q4).unwrap_or(0), ..s4 });
                    assert(probe_run(s4, ask(q4), ask, (fuel - 4) as nat) == seek_run(
                        s5,
                        k + 1,
                        ask,
                        (fuel - 4) as nat,
                    ));
                    lemma_seek_run(s5, k + 1, ask, (fuel - 4) as nat);
                } else {
                    let s4 = probe_offer(s3);
                    assert(probe_run(s3, ask(q3), ask, (fuel - 3) as nat) == seek_run(
                        s4,
                        k + 1,
                        ask,
                        (fuel - 3) as nat,
                    ));
                    lemma_seek_run(s4, k + 1, ask, (fuel - 3) as nat);
                }
            }
        }
    }
}

proof fn lemma_choice_keeps_realtek(
    mask: u16,
    ask: spec_fn(Query) -> Option<u32>,
    k: int,
    r: Found,
    f: Option<Found>,
)
    requires
        0 <= k <= 4,
    ensures
        choice(mask, ask, k, Some(r), f).0 == Some(r),
    decreases 4 - k,
{
    if k < 4 {
        lemma_choice_keeps_realtek(mask, ask, k + 1, r, f);
        if answers(mask, ask, k) {
            let found = Found { cad: k as u32, codec: codec_at(ask, k)->0 };
            lemma_choice_keeps_realtek(mask, ask, k + 1, r, Some(found));
        }
    }
}

proof fn lemma_choice_first(mask: u16, ask: spec_fn(Query) -> Option<u32>, k: int, f: Option<Found>)
    requires
        0 <= k <= 4,
    ensures
        ({
            let (r, g) = choice(mask, ask, k, None, f);
            &&& match r {
                Some(x) => {
                    &&& k <= x.cad < 4
                    &&& realtek_answers(mask, ask, x.cad as int)
                    &&& codec_at(ask, x.cad as int) == Some(x.codec)
                    &&& forall|j: int| k <= j < x.cad ==> !realtek_answers(mask, ask, j)
                },
                None => {
                    &&& forall|j: int| k <= j < 4 ==> !realtek_answers(mask, ask, j)
                    &&& f is Some ==> g == f
                    &&& f is None ==> match g {
                        Some(x) => {
                            &&& k <= x.cad < 4
                            &&& answers(mask, ask, x.cad as int)
                            &&& codec_at(ask, x.cad as int) == Some(x.codec)
                            &&& forall|j: int| k <= j < x.cad ==> !answers(mask, ask, j)
                        },
                        None => forall|j: int| k <= j < 4 ==> !answers(mask, ask, j),
                    }
                },
            }
        }),
    decreases 4 - k,
{
    if k < 4 {
        if !answers(mask, ask, k) {
            lemma_choice_first(mask, ask, k + 1, f);
        } else {
            let found = Found { cad: k as u32, codec: codec_at(ask, k)->0 };
            if is_realtek(found.codec) {
                lemma_choice_keeps_realtek(mask, ask, k + 1, found, f);
            } else if f is None {
                lemma_choice_first(mask, ask, k + 1, Some(found));
            } else {
                lemma_choice_first(mask, ask, k + 1, f);
            }
        }
    }
}

/// A whole probe takes at most sixteen queries and picks the first Realtek
/// codec that answers; failing that, the first codec that answers at all; and
/// reports that there is none only when none answers.
pub proof fn law_probe_picks_realtek(mask: u16, ask: spec_fn(Query) -> Option<u32>)
    ensures
        match probe_run(probe_start(mask), None, ask, 16) {
            Some(ProbeAction::Found(x)) => {
                &&& codec_at(ask, x.cad as int) == Some(x.codec)
                &&& answers(mask, ask, x.cad as int)
                &&& if is_realtek(x.codec) {
                    forall|j: int| 0 <= j < x.cad ==> !realtek_answers(mask, ask, j)
                } else {
                    &&& forall|j: int| !realtek_answers(mask, ask, j)
                    &&& forall|j: int| 0 <= j < x.cad ==> !answers(mask, ask, j)
                }
            },
            Some(ProbeAction::NoCodec) => forall|j: int| !answers(mask, ask, j),
            _ => false,
        },
{
    let s = probe_start(mask);
    assert(probe_run(s, None, ask, 16) == seek_run(s, 0, ask, 16));
    lemma_seek_run(s, 0, ask, 16);
    lemma_choice_first(mask, ask, 0, None);
}

// ── Playback path ──
/// Wake a node to a power state.
pub open spec fn power_verb(nid: u32, state: u32) -> Verb {
    Verb { nid, verb: VERB_SET_POWER_STATE, payload: state }
}

/// Gain and mute of a node's output amp, both channels.
pub open spec fn output_amp_verb(nid: u32, gain: u32, mute: bool) -> Verb {
    Verb {
        nid,
        verb: VERB_SET_AMP_GAIN_MUTE,
        payload: (AC_AMP_OUT_BOTH + gain % 0x80 + if mute {
            AC_AMP_MUTE as int
        } else {
            0
        }) as u32,
    }
}

/// Gain and mute of one input amp of a node, both channels.
pub open spec fn input_amp_verb(nid: u32, index: u32, gain: u32, mute: bool) -> Verb {
    Verb {
        nid,
        verb: VERB_SET_AMP_GAIN_MUTE,
        payload: (AC_AMP_IN_BOTH + index % 16 * 0x100 + gain % 0x80 + if mute {
            AC_AMP_MUTE as int
        } else {
            0
        }) as u32,
    }
}

fn set_power(nid: u32, state: u32) -> (v: Verb)
    ensures
        v == power_verb(nid, state),
{
    Verb { nid, verb: VERB_SET_POWER_STATE, payload: state }
}

fn set_output_amp(nid: u32, gain: u32, mute: bool) -> (v: Verb)
    ensures
        v == output_amp_verb(nid, gain, mute),
{
    let m: u32 = if mute {
        AC_AMP_MUTE
    } else {
        0
    };
    Verb { nid, verb: VERB_SET_AMP_GAIN_MUTE, payload: AC_AMP_OUT_BOTH + gain % 0x80 + m }
}

fn set_input_amp(nid: u32, index: u32, gain: u32, mute: bool) -> (v: Verb)
    ensures
        v == input_amp_verb(nid, index, gain, mute),
{
    let m: u32 = if mute {
        AC_AMP_MUTE
    } else {
        0
    };
    Verb {
        nid,
        verb: VERB_SET_AMP_GAIN_MUTE,
        payload: AC_AMP_IN_BOTH + index % 16 * 0x100 + gain % 0x80 + m,
    }
}

/// The widget types that a node of the map may have.
#[derive(Clone, Copy, Debug, PartialEq, Eq, Structural)]
pub enum Expected {
    /// An output converter.
    Dac,
    /// A mixer or a selector.
    Mux,
    /// A pin complex.
    Pin,
}

/// Whether a widget type is an expected one.
pub open spec fn is_expected(e: Expected, kind: u32) -> bool {
    match e {
        Expected::Dac => kind == AC_WID_AUD_OUT,
        Expected::Mux => kind == AC_WID_AUD_MIX || kind == AC_WID_AUD_SEL,
        Expected::Pin => kind == AC_WID_PIN,
    }
}

/// The widget type in a capabilities word: bits 23 to 20.
pub open spec fn widget_type(caps: u32) -> u32 {
    caps / 0x10_0000 % 16
}

/// One step of codec setup.
#[derive(Clone, Copy, Debug, PartialEq, Eq, Structural)]
pub enum Step {
    /// Send a verb; the response does not matter.
    Send(Verb),
    /// Read a node's capabilities and stop unless its type is expected.
    Check { nid: u32, expected: Expected },
}

/// The verb that a step sends.
pub open spec fn step_verb(s: Step) -> Verb {
    match s {
        Step::Send(v) => v,
        Step::Check { nid, .. } => Verb {
            nid,
            verb: VERB_PARAM,
            payload: AC_PAR_AUDIO_WIDGET_CAP,
        },
    }
}

/// Wake the function group and check every node of the map.
pub open spec fn check_steps() -> Seq<Step> {
    seq![
        Step::Send(power_verb(NID_AFG, AC_PWRST_D0)),
        Step::Check { nid: NID_DAC_SPK, expected: Expected::Dac },
        Step::Check { nid: NID_DAC_HP, expected: Expected::Dac },
        Step::Check { nid: NID_MUX_SPK, expected: Expected::Mux },
        Step::Check { nid: NID_MUX_HP, expected: Expected::Mux },
        Step::Check { nid: NID_PIN_SPK, expected: Expected::Pin },
        Step::Check { nid: NID_PIN_HP, expected: Expected::Pin },
    ]
}

/// Program one path: bind its DAC to the stream and unmute it, route its mux
/// to connection `conn`, enable its pin.
pub open spec fn path_steps(
    dac: u32,
    mux: u32,
    pin: u32,
    conn: u32,
    control: u32,
    fmt: u16,
    tag: u32,
) -> Seq<Step> {
    seq![
        Step::Send(power_verb(dac, AC_PWRST_D0)),
        Step::Send(Verb { nid: dac, verb: VERB_SET_CHANNEL_STREAMID, payload: tag << 4 }),
        Step::Send(Verb { nid: dac, verb: VERB_SET_STREAM_FORMAT, payload: fmt as u32 }),
        Step::Send(output_amp_verb(dac, DEFAULT_GAIN, false)),
        Step::Send(power_verb(mux, AC_PWRST_D0)),
        Step::Send(Verb { nid: mux, verb: VERB_SET_CONNECT_SEL, payload: conn }),
        Step::Send(input_amp_verb(mux, conn, 0, false)),
        Step::Send(power_verb(pin, AC_PWRST_D0)),
        Step::Send(Verb { nid: pin, verb: VERB_SET_PIN_WIDGET_CONTROL, payload: control }),
        Step::Send(Verb { nid: pin, verb: VERB_SET_EAPD_BTLENABLE, payload: AC_EAPD }),
        Step::Send(output_amp_verb(pin, 0, false)),
    ]
}

/// The whole playback setup: checks, speaker path, headphone path.
pub open spec fn init_steps(fmt: u16, tag: u32) -> Seq<Step> {
    check_steps() + path_steps(NID_DAC_SPK, NID_MUX_SPK, NID_PIN_SPK, 0, AC_PIN_OUT, fmt, tag)
        + path_steps(NID_DAC_HP, NID_MUX_HP, NID_PIN_HP, 1, AC_PIN_OUT_HP, fmt, tag)
}

fn push_path(
    steps: &mut Vec<Step>,
    dac: u32,
    mux: u32,
    pin: u32,
    conn: u32,
    control: u32,
    fmt: u16,
    tag: u32,
)
    ensures
        final(steps)@ == old(steps)@ + path_steps(dac, mux, pin, conn, control, fmt, tag),
{
    steps.push(Step::Send(set_power(dac, AC_PWRST_D0)));
    steps.push(
        Step::Send(Verb { nid: dac, verb: VERB_SET_CHANNEL_STREAMID, payload: tag << 4 }),
    );
    steps.push(
        Step::Send(Verb { nid: dac, verb: VERB_SET_STREAM_FORMAT, payload: fmt as u32 }),
    );
    steps.push(Step::Send(set_output_amp(dac, DEFAULT_GAIN, false)));
    steps.push(Step::Send(set_power(mux, AC_PWRST_D0)));
    steps.push(Step::Send(Verb { nid: mux, verb: VERB_SET_CONNECT_SEL, payload: conn }));
    steps.push(Step::Send(set_input_amp(mux, conn, 0, false)));
    steps.push(Step::Send(set_power(pin, AC_PWRST_D0)));
    steps.push(
        Step::Send(Verb { nid: pin, verb: VERB_SET_PIN_WIDGET_CONTROL, payload: control }),
    );
    steps.push(Step::Send(Verb { nid: pin, verb: VERB_SET_EAPD_BTLENABLE, payload: AC_EAPD }));
    steps.push(Step::Send(set_output_amp(pin, 0, false)));
    assert(steps@ =~= old(steps)@ + path_steps(dac, mux, pin, conn, control, fmt, tag));
}

/// What codec setup does next.
#[derive(Clone, Copy, Debug, PartialEq, Eq, Structural)]
pub enum SetupAction {
    Send(Verb),
    Done,
    /// A node is not what the map says: its type, and what was expected.
    WrongWidget { nid: u32, found: u32, expected: Expected },
    /// A verb was not answered.
    NoAnswer(Verb),
}

/// What step `pc` asks for.
pub open spec fn setup_at(steps: Seq<Step>, pc: int) -> SetupAction {
    if pc >= steps.len() {
        SetupAction::Done
    } else {
        SetupAction::Send(step_verb(steps[pc]))
    }
}

/// One step of codec setup: the answer to step `pc` (`None` if there was
/// none) decides whether setup goes on to the next step.
pub open spec fn setup_next(steps: Seq<Step>, pc: int, reply: Option<u32>) -> (int, SetupAction) {
    if pc >= steps.len() {
        (pc, SetupAction::Done)
    } else {
        match reply {
            None => (pc, SetupAction::NoAnswer(step_verb(steps[pc]))),
            Some(v) => match steps[pc] {
                Step::Check { nid, expected } => if is_expected(expected, widget_type(v)) {
                    (pc + 1, setup_at(steps, pc + 1))
                } else {
                    (
                        pc,
                        SetupAction::WrongWidget { nid, found: widget_type(v), expected },
                    )
                },
                Step::Send(_) => (pc + 1, setup_at(steps, pc + 1)),
            },
        }
    }
}

/// Codec setup in progress.
pub struct Setup {
    steps: Vec<Step>,
    pc: usize,
}

impl Setup {
    /// The steps.
    pub closed spec fn steps(&self) -> Seq<Step> {
        self.steps@
    }

    /// The step whose answer is awaited.
    pub closed spec fn pos(&self) -> int {
        self.pc as int
    }

    /// The position lies inside the steps or just behind them.
    pub open spec fn wf(&self) -> bool {
        0 <= self.pos() <= self.steps().len() < usize::MAX
    }

    /// The current action, before there is an answer.
    pub fn begin(&self) -> (a: SetupAction)
        requires
            self.wf(),
        ensures
            a == setup_at(self.steps(), self.pos()),
    {
        if self.pc >= self.steps.len() {
            return SetupAction::Done;
        }
        match self.steps[self.pc] {
            Step::Send(v) => SetupAction::Send(v),
            Step::Check { nid, expected: _ } => SetupAction::Send(
                Verb { nid, verb: VERB_PARAM, payload: AC_PAR_AUDIO_WIDGET_CAP },
            ),
        }
    }

    /// Whether a node is what the map says, given its capabilities.
    fn check_widget(nid: u32, expected: Expected, caps: u32) -> (r: Result<(), SetupAction>)
        ensures
            r == if is_expected(expected, widget_type(caps)) {
                Ok::<(), SetupAction>(())
            } else {
                Err(SetupAction::WrongWidget { nid, found: widget_type(caps), expected })
            },
    {
        let t: u32 = caps / 0x10_0000 % 16;
        let ok = match expected {
            Expected::Dac => t == AC_WID_AUD_OUT,
            Expected::Mux => t == AC_WID_AUD_MIX || t == AC_WID_AUD_SEL,
            Expected::Pin => t == AC_WID_PIN,
        };
        if ok {
            Ok(())
        } else {
            Err(SetupAction::WrongWidget { nid, found: t, expected })
        }
    }

    /// The next action, given the answer to the last verb (`None` if there
    /// was none).
    pub fn step(&mut self, reply: Option<u32>) -> (a: SetupAction)
        requires
            old(self).wf(),
        ensures
            final(self).wf(),
            final(self).steps() == old(self).steps(),
            (final(self).pos(), a) == setup_next(old(self).steps(), old(self).pos(), reply),
    {
        if self.pc >= self.steps.len() {
            return SetupAction::Done;
        }
        let value: u32 = match reply {
            Some(v) => v,
            None => {
                return match self.begin() {
                    SetupAction::Send(v) => SetupAction::NoAnswer(v),
                    a => a,
                };
            },
        };
        if let Step::Check { nid, expected } = self.steps[self.pc] {
            if let Err(a) = Self::check_widget(nid, expected, value) {
                return a;
            }
        }
        self.pc = self.pc + 1;
        self.begin()
    }
}

/// The codec is programmed only once every node of the map has shown the
/// expected type: all checks stand before the first programming step, and a
/// check is passed only by an answer that shows an expected type.
pub proof fn law_checked_before_programming(fmt: u16, tag: u32, pc: int, reply: Option<u32>)
    requires
        0 <= pc < init_steps(fmt, tag).len(),
    ensures
        ({
            let steps = init_steps(fmt, tag);
            let (q, a) = setup_next(steps, pc, reply);
            &&& steps.len() == 29
            &&& forall|i: int| 1 <= i < 7 ==> (#[trigger] steps[i]) is Check
            &&& forall|i: int| 7 <= i < 29 ==> (#[trigger] steps[i]) is Send
            &&& pc <= q <= pc + 1
            &&& q == pc + 1 ==> reply is Some
            &&& q == pc + 1 && (steps[pc] is Check) ==> is_expected(
                steps[pc]->expected,
                widget_type(reply->0),
            )
            &&& a is Send ==> q == pc + 1
        }),
{
}

/// The registers that the state dump reads of a node, in order.
pub open spec fn state_queries(nid: u32) -> Seq<Verb> {
    seq![
        Verb { nid, verb: VERB_GET_CHANNEL_STREAMID, payload: 0 },
        Verb { nid, verb: VERB_GET_STREAM_FORMAT, payload: 0 },
        Verb { nid, verb: VERB_GET_CONNECT_SEL, payload: 0 },
        Verb { nid, verb: VERB_GET_POWER_STATE, payload: 0 },
        Verb { nid, verb: VERB_GET_PIN_WIDGET_CONTROL, payload: 0 },
        Verb { nid, verb: VERB_GET_EAPD_BTLENABLE, payload: 0 },
        Verb { nid, verb: VERB_GET_AMP_GAIN_MUTE, payload: AC_AMP_GET_OUT_LEFT },
    ]
}

fn push_state(out: &mut Vec<Verb>, nid: u32)
    ensures
        final(out)@ == old(out)@ + state_queries(nid),
{
    out.push(Verb { nid, verb: VERB_GET_CHANNEL_STREAMID, payload: 0 });
    out.push(Verb { nid, verb: VERB_GET_STREAM_FORMAT, payload: 0 });
    out.push(Verb { nid, verb: VERB_GET_CONNECT_SEL, payload: 0 });
    out.push(Verb { nid, verb: VERB_GET_POWER_STATE, payload: 0 });
    out.push(Verb { nid, verb: VERB_GET_PIN_WIDGET_CONTROL, payload: 0 });
    out.push(Verb { nid, verb: VERB_GET_EAPD_BTLENABLE, payload: 0 });
    out.push(Verb { nid, verb: VERB_GET_AMP_GAIN_MUTE, payload: AC_AMP_GET_OUT_LEFT });
    assert(out@ =~= old(out)@ + state_queries(nid));
}

impl Codec {
    /// Begin a probe of the codecs in `codec_mask`: pick the Realtek analog
    /// codec, which owns the speaker and headphone DACs, or else the first
    /// codec that answers.
    pub fn probe(codec_mask: u16) -> (p: Probe)
        ensures
            p == probe_start(codec_mask),
            p.cad < 4,
    {
        Probe {
            mask: codec_mask,
            stage: ProbeStage::Begin,
            cad: 0,
            vendor: 0,
            subsystem: 0,
            realtek: None,
            fallback: None,
        }
    }

    /// Begin playback setup: check that every node of the map is what we
    /// expect, then program both paths for format `fmt` and stream
    /// `stream_tag`.
    pub fn init_playback(fmt: u16, stream_tag: u32) -> (s: Setup)
        ensures
            s.wf(),
            s.pos() == 0,
            s.steps() == init_steps(fmt, stream_tag),
    {
        let mut steps = vec![
            Step::Send(set_power(NID_AFG, AC_PWRST_D0)),
            Step::Check { nid: NID_DAC_SPK, expected: Expected::Dac },
            Step::Check { nid: NID_DAC_HP, expected: Expected::Dac },
            Step::Check { nid: NID_MUX_SPK, expected: Expected::Mux },
            Step::Check { nid: NID_MUX_HP, expected: Expected::Mux },
            Step::Check { nid: NID_PIN_SPK, expected: Expected::Pin },
            Step::Check { nid: NID_PIN_HP, expected: Expected::Pin },
        ];
        assert(steps@ =~= check_steps());
        push_path(
            &mut steps,
            NID_DAC_SPK,
            NID_MUX_SPK,
            NID_PIN_SPK,
            0,
            AC_PIN_OUT,
            fmt,
            stream_tag,
        );
        push_path(
            &mut steps,
            NID_DAC_HP,
            NID_MUX_HP,
            NID_PIN_HP,
            1,
            AC_PIN_OUT_HP,
            fmt,
            stream_tag,
        );
        assert(steps@ =~= init_steps(fmt, stream_tag));
        assert(steps@.len() == 29);
        Setup { steps, pc: 0 }
    }

    /// The verbs that mute or unmute both output DACs at their amps.
    pub fn set_mute(mute: bool) -> (v: Vec<Verb>)
        ensures
            v@ == seq![
                output_amp_verb(NID_DAC_SPK, DEFAULT_GAIN, mute),
                output_amp_verb(NID_DAC_HP, DEFAULT_GAIN, mute),
            ],
    {
        let v = vec![
            set_output_amp(NID_DAC_SPK, DEFAULT_GAIN, mute),
            set_output_amp(NID_DAC_HP, DEFAULT_GAIN, mute),
        ];
        assert(v@ =~= seq![
            output_amp_verb(NID_DAC_SPK, DEFAULT_GAIN, mute),
            output_amp_verb(NID_DAC_HP, DEFAULT_GAIN, mute),
        ]);
        v
    }

    /// The verbs that read back the live register state of the playback path,
    /// seven for each of its six nodes.
    pub fn dump_state() -> (v: Vec<Verb>)
        ensures
            v@ == state_queries(NID_DAC_SPK) + state_queries(NID_DAC_HP) + state_queries(
                NID_MUX_SPK,
            ) + state_queries(NID_MUX_HP) + state_queries(NID_PIN_SPK) + state_queries(NID_PIN_HP),
    {
        let mut v: Vec<Verb> = Vec::new();
        push_state(&mut v, NID_DAC_SPK);
        assert(v@ =~= state_queries(NID_DAC_SPK));
        push_state(&mut v, NID_DAC_HP);
        push_state(&mut v, NID_MUX_SPK);
        push_state(&mut v, NID_MUX_HP);
        push_state(&mut v, NID_PIN_SPK);
        push_state(&mut v, NID_PIN_HP);
        v
    }

    /// The verb that reads the headphone pin's sense.
    pub fn sense_verb() -> (v: Verb)
        ensures
            v == (Verb { nid: NID_PIN_HP, verb: VERB_GET_PIN_SENSE, payload: 0 }),
    {
        Verb { nid: NID_PIN_HP, verb: VERB_GET_PIN_SENSE, payload: 0 }
    }

    /// Whether a device is plugged into the headphone pin, given its sense:
    /// bit 31.
    pub fn headphone_present(sense: u32) -> (b: bool)
        ensures
            b == (sense >= 0x8000_0000),
    {
        sense >= 0x8000_0000
    }

    /// Where the sound is heading, given the headphone pin's sense or why it
    /// could not be read.
    pub fn output_path(sense: &Result<u32, String>) -> (s: String)
        ensures
            s@ == match *sense {
                Ok(v) => if v >= 0x8000_0000 {
                    "headphone"@
                } else {
                    "speakers"@
                },
                Err(e) => "unknown ("@ + e@ + ")"@,
            },
    {
        match sense {
            Ok(v) => {
                if Self::headphone_present(*v) {
                    "headphone".to_owned()
                } else {
                    "speakers".to_owned()
                }
            },
            Err(e) => {
                let mut s = "unknown (".to_owned();
                s.append(e.as_str());
                s.append(")");
                s
            },
        }
    }
}

/// A codec is present exactly when its bit of the mask is set.
pub proof fn law_present_bits(mask: u16)
    ensures
        present(mask, 0) <==> mask & 1 != 0,
        present(mask, 1) <==> mask & 2 != 0,
        present(mask, 2) <==> mask & 4 != 0,
        present(mask, 3) <==> mask & 8 != 0,
{
    assert((mask & 1 != 0 <==> mask % 2 == 1) && (mask & 2 != 0 <==> mask / 2 % 2 == 1) && (mask & 4
        != 0 <==> mask / 4 % 2 == 1) && (mask & 8 != 0 <==> mask / 8 % 2 == 1)) by (bit_vector);
}

/// A codec is Realtek's exactly when the upper half of its ID is 10ec, and what
/// it is comes from its own answers: the vendor from the root node, and the
/// subsystem from there or, where that is zero, from the function group.
pub proof fn law_codec_identity(ask: spec_fn(Query) -> Option<u32>, cad: u32)
    ensures
        ({
            let get = |nid: u32, verb: u32, payload: u32|
                ask(Query { cad, verb: Verb { nid, verb, payload } });
            match codec_at(ask, cad as int) {
                Some(c) => {
                    &&& get(0, 0xf00, 0) == Some(c.vendor_id)
                    &&& c.vendor_id != 0 && c.vendor_id != 0xffff_ffff
                    &&& is_realtek(c) <==> 0x10ec_0000 <= c.vendor_id <= 0x10ec_ffff
                    &&& c.subsystem_id != 0 ==> get(0, 0xf00, 1) == Some(c.subsystem_id) || get(
                        1,
                        0xf20,
                        0,
                    ) == Some(c.subsystem_id)
                    &&& (get(0, 0xf00, 1) matches Some(s) && s != 0) ==> get(0, 0xf00, 1) == Some(
                        c.subsystem_id,
                    )
                    &&& get(0, 0xf00, 1) is None && get(1, 0xf20, 0) is None ==> c.subsystem_id == 0
                },
                None => !(get(0, 0xf00, 0) matches Some(v) && v != 0 && v != 0xffff_ffff),
            }
        }),
{
}

/// An amp verb says which amp, how loud and whether muted, each in its own
/// bits, for both channels; muting changes the mute bit and nothing else.
pub proof fn law_amp_verbs(nid: u32, index: u32, gain: u32, mute: bool)
    ensures
        ({
            let o = output_amp_verb(nid, gain, mute);
            &&& o.nid == nid && o.verb == 0x300
            &&& o.payload / 256 == 0xb0
            &&& o.payload / 128 % 2 == 1 <==> mute
            &&& o.payload % 128 == gain % 128
        }),
        ({
            let i = input_amp_verb(nid, index, gain, mute);
            &&& i.nid == nid && i.verb == 0x300
            &&& i.payload / 4096 == 3
            &&& i.payload / 256 % 16 == index % 16
            &&& i.payload / 128 % 2 == 1 <==> mute
            &&& i.payload % 128 == gain % 128
        }),
{
}

/// The kind of a node is in bits 20 to 23 of its capabilities; converters are of
/// kind 0, mixers and selectors of kinds 2 and 3, pins of kind 4.
pub proof fn law_widget_kinds(high: u32, kind: u32, low: u32)
    requires
        high < 256,
        kind < 16,
        low < 0x10_0000,
    ensures
        widget_type((high * 0x100_0000 + kind * 0x10_0000 + low) as u32) == kind,
        is_expected(Expected::Dac, kind) <==> kind == 0,
        is_expected(Expected::Mux, kind) <==> kind == 2 || kind == 3,
        is_expected(Expected::Pin, kind) <==> kind == 4,
{
}

/// Both outputs sound after setup. Every node of the map is checked, and on each
/// path the converter is bound to the stream with its format and unmuted, the
/// mixer takes that converter and is unmuted, and the pin drives its jack, is
/// powered and unmuted; nothing else is sent.
pub proof fn law_both_paths_are_set_up(fmt: u16, tag: u32)
    requires
        tag < 0x1000_0000,
    ensures
        ({
            let steps = init_steps(fmt, tag);
            let send = |at: int, nid: u32, verb: u32, payload: int|
                steps[at] == Step::Send(Verb { nid, verb, payload: payload as u32 });
            let path = |at: int, dac: u32, mux: u32, pin: u32, input: int, control: int|
                {
                    &&& send(at, dac, 0x705, 0)
                    &&& send(at + 1, dac, 0x706, tag * 16)
                    &&& send(at + 2, dac, 0x200, fmt as int)
                    &&& send(at + 3, dac, 0x300, 0xb044)
                    &&& send(at + 4, mux, 0x705, 0)
                    &&& send(at + 5, mux, 0x701, input)
                    &&& send(at + 6, mux, 0x300, 0x3000 + 0x100 * input)
                    &&& send(at + 7, pin, 0x705, 0)
                    &&& send(at + 8, pin, 0x707, control)
                    &&& send(at + 9, pin, 0x70c, 2)
                    &&& send(at + 10, pin, 0x300, 0xb000)
                };
            &&& steps.len() == 29
            &&& send(0, 1, 0x705, 0)
            &&& steps[1] == (Step::Check { nid: 2, expected: Expected::Dac })
            &&& steps[2] == (Step::Check { nid: 3, expected: Expected::Dac })
            &&& steps[3] == (Step::Check { nid: 0xc, expected: Expected::Mux })
            &&& steps[4] == (Step::Check { nid: 0xd, expected: Expected::Mux })
            &&& steps[5] == (Step::Check { nid: 0x14, expected: Expected::Pin })
            &&& steps[6] == (Step::Check { nid: 0x15, expected: Expected::Pin })
            &&& path(7, 2, 0xc, 0x14, 0, 0x40)
            &&& path(18, 3, 0xd, 0x15, 1, 0xc0)
        }),
{
    assert(tag << 4 == tag * 16) by (bit_vector)
        requires
            tag < 0x1000_0000,
    ;
}

/// Setup goes on while it is answered as expected, tells what it found where
/// not, and is done behind its last step; checking asks for capabilities.
pub proof fn law_setup_goes_on(steps: Seq<Step>, pc: int, v: u32)
    requires
        0 <= pc < steps.len(),
    ensures
        ({
            let (q, a) = setup_next(steps, pc, Some(v));
            let fine = match steps[pc] {
                Step::Check { expected, .. } => is_expected(expected, widget_type(v)),
                Step::Send(_) => true,
            };
            &&& fine ==> q == pc + 1
            &&& fine && pc + 1 == steps.len() ==> a is Done
            &&& fine && pc + 1 < steps.len() ==> a == SetupAction::Send(
                match steps[pc + 1] {
                    Step::Send(w) => w,
                    Step::Check { nid, .. } => Verb { nid, verb: 0xf00, payload: 9 },
                },
            )
            &&& !fine ==> q == pc && (a matches SetupAction::WrongWidget { nid, found, expected }
                && found == widget_type(v) && steps[pc] == (Step::Check { nid, expected }))
        }),
        setup_next(steps, pc, None) == (pc, SetupAction::NoAnswer(step_verb(steps[pc]))),
        setup_next(steps, steps.len() as int, Some(v)) == (steps.len() as int, SetupAction::Done),
        setup_next(steps, steps.len() as int, None) == (steps.len() as int, SetupAction::Done),
{
}

/// The state dump only reads, seven registers of a node.
pub proof fn law_state_dump_only_reads(nid: u32, i: int)
    requires
        0 <= i < 7,
    ensures
        state_queries(nid).len() == 7,
        state_queries(nid)[i].nid == nid,
        state_queries(nid)[i].verb >= 0xa00,
        state_queries(nid)[i].verb == seq![0xf06u32, 0xa00, 0xf01, 0xf05, 0xf07, 0xf0c, 0xb00][i],
        state_queries(nid)[i].payload == if i == 6 {
            0xa000u32
        } else {
            0
        },
{
}

} // verus!
