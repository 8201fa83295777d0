# audiod

A userspace audio server for Intel HD-Audio hardware. Applications are served
through a preload library that stands in for ALSA; it sends their audio over a
Unix socket to the server, which mixes all streams and feeds the controller's
DMA ring directly.

The logic is a Verus library in `src/`: every function there carries a contract
that Verus proves. `app/` is the program around it, which performs the I/O that
the library asks for.

## Layout

- `src/bytes.rs`, `src/text.rs`: little-endian codecs and text helpers.
- `src/ring.rs`: the bounded byte ring of client and server.
- `src/common.rs`, `src/config.rs`, `src/cli.rs`: shared constants, the
  configuration in force, command lines.
- `src/hda/`: the controller driver. Register programs (`program`), bring-up and
  immediate commands (`controller`), the command rings (`corb`), codec probe and
  setup (`codec`) and topology dump (`topology`), the stream and its DMA ring
  (`stream`, `bdl`, `pagemap`), and the playback session (`playback`).
- `src/server/`: the wire protocol (`protocol`), admission (`door`), connections
  (`client`), resampling positions and channel folding (`dsp`, `session`), the
  mixer (`mixer`), the playback backend (`backend`), local playback (`player`,
  `wav`), and the shared state (`state`).
- `src/shim/`: ALSA handles and the delay model (`pcm`), the drain thread and
  reconnection (`drain`), byte layouts and texts (`abi`), exported names
  (`symbols`).
- `tests/`: tests of the library.
- `app/`: the server, its control tool and the C interface.

## How the pieces meet

Whatever alternates outside work and decisions is a state machine in the
library. A `step` function takes what came of the last action and gives the next
one; the program performs it and hands the outcome back. Time is passed in as
nanoseconds, register values as integers, DMA memory as byte slices.

Floating-point samples pass through the library as bit patterns. The resampler
decides which input frames and which phase make up each output frame; the
interpolation itself, gain and rounding are computed in `app/float.rs`.

## Properties

Functions named `law_...` state what holds across calls. Among them:

- `dsp::law_chunk_split_invariance`: resampling does not depend on how the input
  was cut into chunks.
- `protocol::law_frames_round_trip` and `law_split_invariance`: what a client
  writes is what the server reads, however the bytes were split on the way.
- `mixer::law_pacing` and `backend::law_feed`: the playback ring never holds
  more than the frames that the delay model of the shim assumes.
- `pcm::law_delay_moves_smoothly`: the reported delay stays within the buffer
  and moves by at most one frame per frame played.
- `mixer::law_mute_only_silences`: muting changes nothing but what is heard.
- `stream::law_ring_order`: the DMA ring plays all that was accepted, once and in
  order, also when a write fills it.
- `corb::law_responses_in_order` and `law_fallback_is_final`: the command rings
  hand out every response once and in order, and once given up are not used
  again.
- `topology::law_walk_visits_every_node`: the topology dump asks every node once
  and ends.
- `client::law_frames_in_order` and `law_shutdown_ends_stream`: frames are acted
  on in order, up to the boundary at which a shutdown is seen.
- `program::law_actions_in_bounds`: no register program leaves the mapped
  window.
