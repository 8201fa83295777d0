//! Debug options for the HDA backend.
use vstd::prelude::*;

verus! {

/// Codec command transport.
#[derive(Clone, Copy, Debug, PartialEq, Eq, Structural)]
pub enum CmdEngineKind {
    /// DMA ring buffers (default).
    Corb,
    /// Immediate-command interface (IC/IR/IRS).
    Pio,
}

#[derive(Clone, Copy, Debug, PartialEq, Eq, Structural)]
pub struct DebugOpts {
    /// Skip the full link reset during bring-up.
    pub skip_reset: bool,
    /// Skip codec playback init (codec assumed pre-configured).
    pub skip_codec_init: bool,
    /// Dump live codec register state after init.
    pub dump_state: bool,
    /// Hexdump the first ring bytes written.
    pub dump_ring: bool,
    /// Walk and log the codec widget graph.
    pub dump_topology: bool,
    /// Force a command engine. `None` is CORB/RIRB with automatic fallback to
    /// the immediate-command interface.
    pub cmd_engine: Option<CmdEngineKind>,
}

/// No option set.
pub open spec fn default_opts() -> DebugOpts {
    DebugOpts {
        skip_reset: false,
        skip_codec_init: false,
        dump_state: false,
        dump_ring: false,
        dump_topology: false,
        cmd_engine: None,
    }
}

impl Default for DebugOpts {
    fn default() -> (o: Self)
        ensures
            o == default_opts(),
    {
        DebugOpts {
            skip_reset: false,
            skip_codec_init: false,
            dump_state: false,
            dump_ring: false,
            dump_topology: false,
            cmd_engine: None,
        }
    }
}

/// Where the process keeps its options.
pub struct OptCell {
    pub set: Option<DebugOpts>,
}

/// Set the options, before any backend is opened.
pub fn configure(cell: &mut OptCell, opts: DebugOpts)
    ensures
        final(cell).set == Some(opts),
{
    cell.set = Some(opts);
}

/// The options in force.
pub fn opts(cell: &OptCell) -> (o: DebugOpts)
    ensures
        o == match cell.set {
            Some(set) => set,
            None => default_opts(),
        },
{
    match cell.set {
        Some(set) => set,
        None => DebugOpts::default(),
    }
}

/// Without options nothing is skipped or dumped and no engine is forced.
pub proof fn law_no_options()
    ensures
        ({
            let o = default_opts();
            &&& !o.skip_reset && !o.skip_codec_init && !o.dump_state && !o.dump_ring
            &&& !o.dump_topology && o.cmd_engine is None
        }),
{
}

} // verus!
