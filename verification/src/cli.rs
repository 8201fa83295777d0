//! Command lines of the server and of the control tool.
use crate::common::SOCKET_PATH_STR;
use crate::hda::dbg::{default_opts, CmdEngineKind, DebugOpts};
use crate::server::protocol::{
    cmd_bytes, encode_cmd, encode_header, header_bytes, intro, law_control_commands,
    law_control_header, parse, Cmd, FrameView, Intro, Parsed,
};
use crate::server::state::{clamped_percent, ServerState};
use crate::text::{
    decimal, law_parse_decimal, occurs_at, parse_u32, str_eq, strip_prefix, u32_value,
};
use vstd::prelude::*;

verus! {

/// The contents of a list of strings.
pub open spec fn texts(s: Seq<String>) -> Seq<Seq<char>> {
    s.map_values(|x: String| x@)
}

// ── Server ──
/// The server's options.
pub struct Cli {
    pub dev_name: String,
    pub list_only: bool,
    pub dbg: DebugOpts,
    /// Everything that is not an option of the server.
    pub positional: Vec<String>,
}

/// The server's options.
pub ghost struct CliView {
    pub dev_name: Seq<char>,
    pub list_only: bool,
    pub dbg: DebugOpts,
    pub positional: Seq<Seq<char>>,
}

impl View for Cli {
    type V = CliView;

    open spec fn view(&self) -> CliView {
        CliView {
            dev_name: self.dev_name@,
            list_only: self.list_only,
            dbg: self.dbg,
            positional: texts(self.positional@),
        }
    }
}

/// No option given.
pub open spec fn cli_default() -> CliView {
    CliView {
        dev_name: "hda"@,
        list_only: false,
        dbg: default_opts(),
        positional: Seq::empty(),
    }
}

/// What an argument other than `-d` adds to the options.
pub open spec fn cli_take(v: CliView, a: Seq<char>) -> CliView {
    if a == "-l"@ {
        CliView { list_only: true, ..v }
    } else if a == "--skip-reset"@ {
        CliView { dbg: DebugOpts { skip_reset: true, ..v.dbg }, ..v }
    } else if a == "--skip-codec-init"@ {
        CliView { dbg: DebugOpts { skip_codec_init: true, ..v.dbg }, ..v }
    } else if a == "--dump-state"@ {
        CliView { dbg: DebugOpts { dump_state: true, ..v.dbg }, ..v }
    } else if a == "--dump-ring"@ {
        CliView { dbg: DebugOpts { dump_ring: true, ..v.dbg }, ..v }
    } else if a == "--dump-topology"@ {
        CliView { dbg: DebugOpts { dump_topology: true, ..v.dbg }, ..v }
    } else if a == "--cmd-engine=pio"@ {
        CliView { dbg: DebugOpts { cmd_engine: Some(CmdEngineKind::Pio), ..v.dbg }, ..v }
    } else if a == "--cmd-engine=corb"@ {
        CliView { dbg: DebugOpts { cmd_engine: Some(CmdEngineKind::Corb), ..v.dbg }, ..v }
    } else {
        CliView { positional: v.positional.push(a), ..v }
    }
}

/// The options in the arguments from the `i`-th on, on top of `v`. `-d` takes
/// the next argument as the device name.
pub open spec fn cli_from(args: Seq<Seq<char>>, i: int, v: CliView) -> CliView
    decreases args.len() - i,
{
    if i >= args.len() {
        v
    } else if args[i] == "-d"@ {
        if i + 1 < args.len() {
            cli_from(args, i + 2, CliView { dev_name: args[i + 1], ..v })
        } else {
            CliView { dev_name: "hda"@, ..v }
        }
    } else {
        cli_from(args, i + 1, cli_take(v, args[i]))
    }
}

/// Read the server's arguments; the first is the program's name.
pub fn parse_args(args: &Vec<String>) -> (c: Cli)
    ensures
        c@ == cli_from(texts(args@), 1, cli_default()),
{
    let ghost all = texts(args@);
    let mut c = Cli {
        dev_name: "hda".to_owned(),
        list_only: false,
        dbg: DebugOpts::default(),
        positional: Vec::new(),
    };
    assert(c@.positional =~= Seq::empty());
    let n: usize = args.len();
    let mut i: usize = 1;
    let mut more = n > 1;
    while more
        invariant
            n == args@.len(),
            all == texts(args@),
            i >= 1,
            more == (i < n),
            cli_from(all, i as int, c@) == cli_from(all, 1, cli_default()),
        decreases n - i,
    {
        let a: &str = args[i].as_str();
        assert(a@ == all[i as int]);
        if str_eq(a, "-d") {
            if n - i > 1 {
                c.dev_name = args[i + 1].clone();
                assert(c.dev_name@ == all[i + 1]);
                i = i + 2;
            } else {
                c.dev_name = "hda".to_owned();
                i = n;
            }
        } else {
            let ghost before = c@;
            if str_eq(a, "-l") {
                c.list_only = true;
            } else if str_eq(a, "--skip-reset") {
                c.dbg.skip_reset = true;
            } else if str_eq(a, "--skip-codec-init") {
                c.dbg.skip_codec_init = true;
            } else if str_eq(a, "--dump-state") {
                c.dbg.dump_state = true;
            } else if str_eq(a, "--dump-ring") {
                c.dbg.dump_ring = true;
            } else if str_eq(a, "--dump-topology") {
                c.dbg.dump_topology = true;
            } else if str_eq(a, "--cmd-engine=pio") {
                c.dbg.cmd_engine = Some(CmdEngineKind::Pio);
            } else if str_eq(a, "--cmd-engine=corb") {
                c.dbg.cmd_engine = Some(CmdEngineKind::Corb);
            } else {
                c.positional.push(a.to_owned());
                assert(c@.positional =~= before.positional.push(a@));
            }
            assert(c@ == cli_take(before, all[i as int]));
            i = i + 1;
        }
        more = i < n;
    }
    c
}

/// What the server is to do.
pub enum Mode {
    Serve,
    Help,
    /// Play 16-bit PCM from standard input.
    Stdin { rate: u32, channels: u32 },
    /// Play a tone for so many seconds (as written; the default where that is
    /// no number).
    SelfTest { secs: Option<String>, rate: u32 },
    /// Play a WAV file.
    Wav(String),
}

/// The number behind `prefix` in an argument, or `default` where it is none.
pub open spec fn number_after(a: Seq<char>, prefix: Seq<char>, default: u32) -> u32 {
    match u32_value(a.skip(prefix.len() as int)) {
        Some(n) => n,
        None => default,
    }
}

/// Rate and channels in the arguments from the `i`-th on, on top of what came
/// before.
pub open spec fn stdin_from(args: Seq<Seq<char>>, i: int, v: (u32, u32)) -> (u32, u32)
    decreases args.len() - i,
{
    if i >= args.len() {
        v
    } else if occurs_at(args[i], "--rate="@, 0) {
        stdin_from(args, i + 1, (number_after(args[i], "--rate="@, 44100), v.1))
    } else if occurs_at(args[i], "--channels="@, 0) {
        stdin_from(args, i + 1, (v.0, number_after(args[i], "--channels="@, 2)))
    } else {
        stdin_from(args, i + 1, v)
    }
}

/// Seconds and rate in the arguments from the `i`-th on, on top of what came
/// before.
pub open spec fn selftest_from(
    args: Seq<Seq<char>>,
    i: int,
    v: (Option<Seq<char>>, u32),
) -> (Option<Seq<char>>, u32)
    decreases args.len() - i,
{
    if i >= args.len() {
        v
    } else if occurs_at(args[i], "--secs="@, 0) {
        selftest_from(args, i + 1, (Some(args[i].skip("--secs="@.len() as int)), v.1))
    } else if occurs_at(args[i], "--rate="@, 0) {
        selftest_from(args, i + 1, (v.0, number_after(args[i], "--rate="@, 48000)))
    } else {
        selftest_from(args, i + 1, v)
    }
}

/// Whether `m` is what the positional arguments ask for.
pub open spec fn mode_of(args: Seq<Seq<char>>, m: Mode) -> bool {
    if args.len() == 0 {
        m is Serve
    } else if args[0] == "--help"@ || args[0] == "-h"@ {
        m is Help
    } else if args[0] == "--stdin"@ || args[0] == "-"@ {
        m matches Mode::Stdin { rate, channels } && (rate, channels) == stdin_from(
            args,
            1,
            (44100u32, 2u32),
        )
    } else if args[0] == "--selftest"@ {
        m matches Mode::SelfTest { secs, rate } && ({
            let (s, r) = selftest_from(args, 1, (None, 48000u32));
            &&& rate == r
            &&& match secs {
                Some(t) => s == Some(t@),
                None => s is None,
            }
        })
    } else {
        m matches Mode::Wav(path) && path@ == args[0]
    }
}

fn stdin_opts(args: &Vec<String>) -> (r: (u32, u32))
    ensures
        r == stdin_from(texts(args@), 1, (44100u32, 2u32)),
{
    let ghost all = texts(args@);
    let mut rate: u32 = 44100;
    let mut channels: u32 = 2;
    let mut i: usize = 1;
    while i < args.len()
        invariant
            1 <= i,
            all == texts(args@),
            stdin_from(all, i as int, (rate, channels)) == stdin_from(
                all,
                1,
                (44100u32, 2u32),
            ),
        decreases args@.len() - i,
    {
        let a: &str = args[i].as_str();
        assert(a@ == all[i as int]);
        if let Some(v) = strip_prefix(a, "--rate=") {
            rate = match parse_u32(v.as_str()) {
                Some(n) => n,
                None => 44100,
            };
        } else if let Some(v) = strip_prefix(a, "--channels=") {
            channels = match parse_u32(v.as_str()) {
                Some(n) => n,
                None => 2,
            };
        }
        i = i + 1;
    }
    (rate, channels)
}

fn selftest_opts(args: &Vec<String>) -> (r: (Option<String>, u32))
    ensures
        ({
            let (s, n) = selftest_from(texts(args@), 1, (None, 48000u32));
            &&& r.1 == n
            &&& match r.0 {
                Some(t) => s == Some(t@),
                None => s is None,
            }
        }),
{
    let ghost all = texts(args@);
    let mut secs: Option<String> = None;
    let ghost mut secs_view: Option<Seq<char>> = None;
    let mut rate: u32 = 48000;
    let mut i: usize = 1;
    while i < args.len()
        invariant
            1 <= i,
            all == texts(args@),
            match secs {
                Some(t) => secs_view == Some(t@),
                None => secs_view is None,
            },
            selftest_from(all, i as int, (secs_view, rate)) == selftest_from(
                all,
                1,
                (None, 48000u32),
            ),
        decreases args@.len() - i,
    {
        let a: &str = args[i].as_str();
        assert(a@ == all[i as int]);
        if let Some(v) = strip_prefix(a, "--secs=") {
            proof {
                secs_view = Some(v@);
            }
            secs = Some(v);
        } else if let Some(v) = strip_prefix(a, "--rate=") {
            rate = match parse_u32(v.as_str()) {
                Some(n) => n,
                None => 48000,
            };
        }
        i = i + 1;
    }
    (secs, rate)
}

/// What the positional arguments ask for.
pub fn mode(positional: &Vec<String>) -> (m: Mode)
    ensures
        mode_of(texts(positional@), m),
{
    if positional.len() == 0 {
        return Mode::Serve;
    }
    let first: &str = positional[0].as_str();
    assert(first@ == texts(positional@)[0]);
    if str_eq(first, "--help") || str_eq(first, "-h") {
        Mode::Help
    } else if str_eq(first, "--stdin") || str_eq(first, "-") {
        let (rate, channels): (u32, u32) = stdin_opts(positional);
        Mode::Stdin { rate, channels }
    } else if str_eq(first, "--selftest") {
        let (secs, rate): (Option<String>, u32) = selftest_opts(positional);
        Mode::SelfTest { secs, rate }
    } else {
        Mode::Wav(first.to_owned())
    }
}

// ── Control tool ──
/// The control tool's arguments.
pub struct CtlArgs {
    pub socket: String,
    pub command: String,
    pub volume: Option<String>,
}

/// What the control tool is to do.
pub enum CtlParse {
    Help,
    /// More arguments than a command has.
    TooMany,
    Run(CtlArgs),
}

/// What the control tool is to do.
pub ghost enum CtlView {
    Help,
    TooMany,
    Run { socket: Seq<char>, command: Option<Seq<char>>, volume: Option<Seq<char>> },
}

/// The arguments from the `i`-th on, on top of what came before.
pub open spec fn ctl_from(
    args: Seq<Seq<char>>,
    i: int,
    socket: Seq<char>,
    command: Option<Seq<char>>,
    volume: Option<Seq<char>>,
) -> CtlView
    decreases args.len() - i,
{
    if i >= args.len() {
        CtlView::Run { socket, command, volume }
    } else if args[i] == "-s"@ {
        if i + 1 < args.len() {
            ctl_from(args, i + 2, args[i + 1], command, volume)
        } else {
            CtlView::Run { socket: SOCKET_PATH_STR@, command, volume }
        }
    } else if args[i] == "-h"@ || args[i] == "--help"@ {
        CtlView::Help
    } else if command is None {
        ctl_from(args, i + 1, socket, Some(args[i]), volume)
    } else if volume is None {
        ctl_from(args, i + 1, socket, command, Some(args[i]))
    } else {
        CtlView::TooMany
    }
}

/// Whether the outcome of reading the arguments is `v`; without a command the
/// status is asked for.
pub open spec fn ctl_matches(p: CtlParse, v: CtlView) -> bool {
    match v {
        CtlView::Help => p is Help,
        CtlView::TooMany => p is TooMany,
        CtlView::Run { socket, command, volume } => p matches CtlParse::Run(a) && {
            &&& a.socket@ == socket
            &&& a.command@ == match command {
                Some(c) => c,
                None => "status"@,
            }
            &&& match a.volume {
                Some(t) => volume == Some(t@),
                None => volume is None,
            }
        },
    }
}

/// Read the control tool's arguments; the first is the program's name.
pub fn parse_ctl(args: &Vec<String>) -> (p: CtlParse)
    ensures
        ctl_matches(p, ctl_from(texts(args@), 1, SOCKET_PATH_STR@, None, None)),
{
    let ghost all = texts(args@);
    let ghost want = ctl_from(all, 1, SOCKET_PATH_STR@, None, None);
    let mut socket = SOCKET_PATH_STR.to_owned();
    let mut command: Option<String> = None;
    let mut volume: Option<String> = None;
    let ghost mut cv: Option<Seq<char>> = None;
    let ghost mut vv: Option<Seq<char>> = None;
    let n: usize = args.len();
    let mut i: usize = 1;
    let mut more = n > 1;
    while more
        invariant
            n == args@.len(),
            all == texts(args@),
            i >= 1,
            more == (i < n),
            match command {
                Some(t) => cv == Some(t@),
                None => cv is None,
            },
            match volume {
                Some(t) => vv == Some(t@),
                None => vv is None,
            },
            want == ctl_from(all, 1, SOCKET_PATH_STR@, None, None),
            ctl_from(all, i as int, socket@, cv, vv) == want,
        decreases n - i,
    {
        let a: &str = args[i].as_str();
        assert(a@ == all[i as int]);
        if str_eq(a, "-s") {
            if n - i > 1 {
                socket = args[i + 1].clone();
                assert(socket@ == all[i + 1]);
                i = i + 2;
            } else {
                socket = SOCKET_PATH_STR.to_owned();
                i = n;
            }
        } else if str_eq(a, "-h") || str_eq(a, "--help") {
            return CtlParse::Help;
        } else if command.is_none() {
            proof {
                cv = Some(a@);
            }
            command = Some(a.to_owned());
            i = i + 1;
        } else if volume.is_none() {
            proof {
                vv = Some(a@);
            }
            volume = Some(a.to_owned());
            i = i + 1;
        } else {
            return CtlParse::TooMany;
        }
        more = i < n;
    }
    let command = match command {
        Some(c) => c,
        None => "status".to_owned(),
    };
    CtlParse::Run(CtlArgs { socket, command, volume })
}

/// The command that a name stands for; `volume` is in percent, as the bit
/// pattern of an `f32`, and limited to 0 through 100.
pub open spec fn ctl_cmd(name: Seq<char>, volume: u32) -> Option<Cmd> {
    if name == "mute"@ {
        Some(Cmd::Mute)
    } else if name == "unmute"@ {
        Some(Cmd::Unmute)
    } else if name == "volume"@ {
        Some(Cmd::Volume(clamped_percent(volume)))
    } else if name == "status"@ {
        Some(Cmd::Status)
    } else {
        None
    }
}

/// The command that a name stands for; `None` when it stands for none.
pub fn ctl_command(name: &str, volume: u32) -> (c: Option<Cmd>)
    ensures
        c == ctl_cmd(name@, volume),
{
    if str_eq(name, "mute") {
        Some(Cmd::Mute)
    } else if str_eq(name, "unmute") {
        Some(Cmd::Unmute)
    } else if str_eq(name, "volume") {
        let mut st = ServerState::new();
        st.set_volume(volume);
        Some(Cmd::Volume(st.volume))
    } else if str_eq(name, "status") {
        Some(Cmd::Status)
    } else {
        None
    }
}

/// Everything that the control tool sends for a command: a control header and
/// the command.
pub fn ctl_request(c: Cmd) -> (out: Vec<u8>)
    ensures
        out@ == header_bytes(0, 0, 0) + cmd_bytes(c),
{
    let mut out = encode_header(0, 0, 0);
    let mut cmd = encode_cmd(c);
    out.append(&mut cmd);
    assert(out@ =~= header_bytes(0, 0, 0) + cmd_bytes(c));
    out
}

/// The server takes what the control tool sends for a control connection that
/// carries exactly that command.
pub proof fn law_ctl_reaches_server(c: Cmd)
    ensures
        ({
            let sent = header_bytes(0, 0, 0) + cmd_bytes(c);
            &&& intro(sent.take(12)) == Intro::Control
            &&& parse(sent.skip(12), false) == (Parsed {
                frames: seq![FrameView::Command(c)],
                bad: false,
                rest: Seq::empty(),
            })
        }),
{
    law_control_header();
    law_control_commands(c, seq![0u8]);
    let sent = header_bytes(0, 0, 0) + cmd_bytes(c);
    assert(sent.take(12) =~= header_bytes(0, 0, 0));
    assert(sent.skip(12) =~= cmd_bytes(c));
}

/// Every option sets what it is for and nothing else, whatever else is given;
/// an argument that is no option is kept, behind those before it.
pub proof fn law_options_are_independent(v: CliView, a: Seq<char>)
    ensures
        ({
            let w = cli_take(v, a);
            &&& w.dev_name == v.dev_name
            &&& w.list_only <==> v.list_only || a == "-l"@
            &&& w.dbg.skip_reset <==> v.dbg.skip_reset || a == "--skip-reset"@
            &&& w.dbg.skip_codec_init <==> v.dbg.skip_codec_init || a == "--skip-codec-init"@
            &&& w.dbg.dump_state <==> v.dbg.dump_state || a == "--dump-state"@
            &&& w.dbg.dump_ring <==> v.dbg.dump_ring || a == "--dump-ring"@
            &&& w.dbg.dump_topology <==> v.dbg.dump_topology || a == "--dump-topology"@
            &&& w.dbg.cmd_engine == if a == "--cmd-engine=pio"@ {
                Some(CmdEngineKind::Pio)
            } else if a == "--cmd-engine=corb"@ {
                Some(CmdEngineKind::Corb)
            } else {
                v.dbg.cmd_engine
            }
            &&& w.positional == v.positional || w.positional == v.positional.push(a)
            &&& a.len() == 0 || a[0] != '-' ==> w.positional == v.positional.push(a)
        }),
{
    lemma_option_names();
}

proof fn lemma_option_names()
    ensures
        "-l"@.len() == 2 && "-l"@[0] == '-',
        "--skip-reset"@.len() == 12 && "--skip-reset"@[0] == '-' && "--skip-reset"@[2] == 's',
        "--skip-codec-init"@.len() == 17 && "--skip-codec-init"@[0] == '-'
            && "--skip-codec-init"@[2] == 's',
        "--dump-state"@.len() == 12 && "--dump-state"@[0] == '-' && "--dump-state"@[2] == 'd',
        "--dump-ring"@.len() == 11 && "--dump-ring"@[0] == '-',
        "--dump-topology"@.len() == 15 && "--dump-topology"@[0] == '-',
        "--cmd-engine=pio"@.len() == 16 && "--cmd-engine=pio"@[0] == '-',
        "--cmd-engine=corb"@.len() == 17 && "--cmd-engine=corb"@[0] == '-'
            && "--cmd-engine=corb"@[2] == 'c',
{
    reveal_strlit("-l");
    reveal_strlit("--skip-reset");
    reveal_strlit("--skip-codec-init");
    reveal_strlit("--dump-state");
    reveal_strlit("--dump-ring");
    reveal_strlit("--dump-topology");
    reveal_strlit("--cmd-engine=pio");
    reveal_strlit("--cmd-engine=corb");
}

/// Arguments are read from the first to the last: one more at the end is taken
/// on top of those before it, and a device name on top of all else.
pub proof fn law_arguments_in_order(args: Seq<Seq<char>>, i: int, v: CliView, a: Seq<char>)
    requires
        0 <= i <= args.len(),
        forall|k: int| i <= k < args.len() ==> #[trigger] args[k] != "-d"@,
        a != "-d"@,
    ensures
        cli_from(args.push(a), i, v) == cli_take(cli_from(args, i, v), a),
        cli_from(args.push("-d"@).push(a), i, v) == (CliView {
            dev_name: a,
            ..cli_from(args, i, v)
        }),
        cli_from(args.push("-d"@), i, v) == (CliView { dev_name: "hda"@, ..cli_from(args, i, v) }),
    decreases args.len() - i,
{
    let one = args.push(a);
    let dev = args.push("-d"@).push(a);
    let cut = args.push("-d"@);
    if i < args.len() {
        assert(one[i] == args[i] && dev[i] == args[i] && cut[i] == args[i]);
        law_arguments_in_order(args, i + 1, cli_take(v, args[i]), a);
    } else {
        assert(one[i] == a && dev[i] == "-d"@ && dev[i + 1] == a && cut[i] == "-d"@);
        assert(cli_from(one, i + 1, cli_take(v, a)) == cli_take(v, a));
        assert(cli_from(dev, i + 2, CliView { dev_name: a, ..v }) == CliView { dev_name: a, ..v });
    }
}

/// A rate or a channel count that is given is the one in force, the last one
/// where there are several, and neither touches the other.
pub proof fn law_stdin_options(args: Seq<Seq<char>>, i: int, v: (u32, u32), n: u32, a: Seq<char>)
    requires
        0 <= i <= args.len(),
        !occurs_at(a, "--rate="@, 0),
        !occurs_at(a, "--channels="@, 0),
    ensures
        stdin_from(args.push("--rate="@ + decimal(n as nat)), i, v) == (n, stdin_from(args, i, v).1),
        stdin_from(args.push("--channels="@ + decimal(n as nat)), i, v) == (
            stdin_from(args, i, v).0,
            n,
        ),
        stdin_from(args.push(a), i, v) == stdin_from(args, i, v),
    decreases args.len() - i,
{
    let r = "--rate="@ + decimal(n as nat);
    let c = "--channels="@ + decimal(n as nat);
    let (ar, ac, aa) = (args.push(r), args.push(c), args.push(a));
    if i < args.len() {
        assert(ar[i] == args[i] && ac[i] == args[i] && aa[i] == args[i]);
        let w = if occurs_at(args[i], "--rate="@, 0) {
            (number_after(args[i], "--rate="@, 44100), v.1)
        } else if occurs_at(args[i], "--channels="@, 0) {
            (v.0, number_after(args[i], "--channels="@, 2))
        } else {
            v
        };
        law_stdin_options(args, i + 1, w, n, a);
    } else {
        law_parse_decimal(n);
        reveal_strlit("--rate=");
        reveal_strlit("--channels=");
        assert(r.subrange(0, 7) =~= "--rate="@);
        assert(c.subrange(0, 11) =~= "--channels="@);
        assert(c[2] == 'c');
        assert(c.subrange(0, 7)[2] == 'c');
        assert("--rate="@[2] == 'r');
        assert(r.skip(7) =~= decimal(n as nat));
        assert(c.skip(11) =~= decimal(n as nat));
        assert(ar[i] == r && ac[i] == c && aa[i] == a);
        let w = stdin_from(ar, i + 1, (n, v.1));
        let x = stdin_from(ac, i + 1, (v.0, n));
        assert(w == (n, v.1));
        assert(x == (v.0, n));
        assert(stdin_from(aa, i + 1, v) == v);
    }
}

/// The control tool's words stand for the server's commands, and a volume from
/// 0 through 100 percent arrives as it was given.
pub proof fn law_ctl_words(name: Seq<char>, volume: u32)
    ensures
        ctl_cmd(name, volume) == Some(Cmd::Mute) <==> name == "mute"@,
        ctl_cmd(name, volume) == Some(Cmd::Unmute) <==> name == "unmute"@,
        ctl_cmd(name, volume) == Some(Cmd::Status) <==> name == "status"@,
        (ctl_cmd(name, volume) matches Some(c) && c is Volume) <==> name == "volume"@,
        name == "volume"@ && volume <= 0x42c8_0000 ==> ctl_cmd(name, volume) == Some(
            Cmd::Volume(volume),
        ),
        ctl_cmd(name, volume) is None <==> name != "mute"@ && name != "unmute"@ && name
            != "status"@ && name != "volume"@,
{
    reveal_strlit("mute");
    reveal_strlit("unmute");
    reveal_strlit("status");
    reveal_strlit("volume");
    assert("mute"@.len() == 4 && "unmute"@.len() == 6 && "status"@.len() == 6 && "volume"@.len()
        == 6);
    assert("unmute"@[0] == 'u' && "status"@[0] == 's' && "volume"@[0] == 'v');
}

/// Plain words are the command and its volume, in this order, and go to the
/// default socket unless another is named, wherever it is named.
pub proof fn law_ctl_arguments(prog: Seq<char>, s: Seq<char>, c: Seq<char>, v: Seq<char>)
    requires
        c != "-s"@ && c != "-h"@ && c != "--help"@,
        v != "-s"@ && v != "-h"@ && v != "--help"@,
    ensures
        ({
            let d = "/tmp/audiod.sock"@;
            let start = |args: Seq<Seq<char>>| ctl_from(args, 1, d, None, None);
            &&& start(seq![prog]) == (CtlView::Run { socket: d, command: None, volume: None })
            &&& start(seq![prog, c]) == (CtlView::Run {
                socket: d,
                command: Some(c),
                volume: None,
            })
            &&& start(seq![prog, c, v]) == (CtlView::Run {
                socket: d,
                command: Some(c),
                volume: Some(v),
            })
            &&& start(seq![prog, "-s"@, s, c, v]) == (CtlView::Run {
                socket: s,
                command: Some(c),
                volume: Some(v),
            })
            &&& start(seq![prog, c, "-s"@, s, v]) == start(seq![prog, "-s"@, s, c, v])
            &&& start(seq![prog, c, v, c]) == CtlView::TooMany
            &&& start(seq![prog, "-h"@, c]) == CtlView::Help
        }),
{
    reveal_with_fuel(ctl_from, 6);
    reveal_strlit("-s");
    reveal_strlit("-h");
    reveal_strlit("--help");
    assert("-s"@[1] == 's' && "-h"@[1] == 'h');
}

/// What the server does goes by its first word: none means serving, two ask for
/// help, two for standard input, one for a tone; anything else is a file.
pub proof fn law_modes(args: Seq<Seq<char>>, m: Mode)
    requires
        mode_of(args, m),
    ensures
        m is Serve <==> args.len() == 0,
        m is Help <==> args.len() > 0 && (args[0] == "--help"@ || args[0] == "-h"@),
        m is Stdin <==> args.len() > 0 && (args[0] == "--stdin"@ || args[0] == "-"@),
        m is SelfTest <==> args.len() > 0 && args[0] == "--selftest"@,
        m matches Mode::Wav(path) ==> path@ == args[0],
        m matches Mode::Stdin { rate, channels } ==> args.len() == 1 ==> rate == 44100 && channels
            == 2,
        m matches Mode::SelfTest { secs, rate } ==> args.len() == 1 ==> rate == 48000 && secs
            is None,
        cli_default().dev_name == "hda"@ && !cli_default().list_only
            && cli_default().positional.len() == 0,
{
    reveal_strlit("--help");
    reveal_strlit("-h");
    reveal_strlit("--stdin");
    reveal_strlit("-");
    reveal_strlit("--selftest");
    assert("--help"@.len() == 6 && "-h"@.len() == 2 && "--stdin"@.len() == 7 && "-"@.len() == 1
        && "--selftest"@.len() == 10);
    if args.len() == 1 {
        assert(stdin_from(args, 1, (44100u32, 2u32)) == (44100u32, 2u32));
        assert(selftest_from(args, 1, (None, 48000u32)) == (None::<Seq<char>>, 48000u32));
    }
}

/// The length and the rate of a tone that are given are those in force, the last
/// ones where there are several, and neither touches the other.
pub proof fn law_selftest_options(
    args: Seq<Seq<char>>,
    i: int,
    v: (Option<Seq<char>>, u32),
    n: u32,
    t: Seq<char>,
    a: Seq<char>,
)
    requires
        0 <= i <= args.len(),
        !occurs_at(a, "--rate="@, 0),
        !occurs_at(a, "--secs="@, 0),
    ensures
        selftest_from(args.push("--rate="@ + decimal(n as nat)), i, v) == (
            selftest_from(args, i, v).0,
            n,
        ),
        selftest_from(args.push("--secs="@ + t), i, v) == (Some(t), selftest_from(args, i, v).1),
        selftest_from(args.push(a), i, v) == selftest_from(args, i, v),
    decreases args.len() - i,
{
    let r = "--rate="@ + decimal(n as nat);
    let s = "--secs="@ + t;
    let (ar, at, aa) = (args.push(r), args.push(s), args.push(a));
    if i < args.len() {
        assert(ar[i] == args[i] && at[i] == args[i] && aa[i] == args[i]);
        let w = if occurs_at(args[i], "--secs="@, 0) {
            (Some(args[i].skip("--secs="@.len() as int)), v.1)
        } else if occurs_at(args[i], "--rate="@, 0) {
            (v.0, number_after(args[i], "--rate="@, 48000))
        } else {
            v
        };
        law_selftest_options(args, i + 1, w, n, t, a);
    } else {
        law_parse_decimal(n);
        reveal_strlit("--rate=");
        reveal_strlit("--secs=");
        assert(r.subrange(0, 7) =~= "--rate="@);
        assert(s.subrange(0, 7) =~= "--secs="@);
        assert(r.subrange(0, 7)[2] == 'r');
        assert("--secs="@[2] == 's');
        assert(r.skip(7) =~= decimal(n as nat));
        assert(s.skip(7) =~= t);
        assert(ar[i] == r && at[i] == s && aa[i] == a);
        assert(selftest_from(ar, i + 1, (v.0, n)) == (v.0, n));
        assert(selftest_from(at, i + 1, (Some(t), v.1)) == (Some(t), v.1));
        assert(selftest_from(aa, i + 1, v) == v);
    }
}

/// A command that is not named is the status, and what is named is kept.
pub proof fn law_ctl_default(p: CtlParse, socket: Seq<char>, c: Seq<char>, t: Seq<char>)
    ensures
        ctl_matches(p, CtlView::Run { socket, command: None, volume: None }) ==> (p
            matches CtlParse::Run(a) && a.socket@ == socket && a.command@ == "status"@ && a.volume
            is None),
        ctl_matches(p, CtlView::Run { socket, command: Some(c), volume: Some(t) }) ==> (p
            matches CtlParse::Run(a) && a.socket@ == socket && a.command@ == c && (a.volume
            matches Some(x) && x@ == t)),
        ctl_matches(p, CtlView::TooMany) ==> p is TooMany,
        ctl_matches(p, CtlView::Help) ==> p is Help,
{
}

/// What is said of options is said of what they hold.
pub proof fn law_options_are_what_they_hold(c: Cli, list: Seq<String>, i: int)
    ensures
        c@.dev_name == c.dev_name@ && c@.list_only == c.list_only && c@.dbg == c.dbg,
        c@.positional == texts(c.positional@),
        texts(list).len() == list.len(),
        0 <= i < list.len() ==> texts(list)[i] == list[i]@,
{
}

} // verus!
