//! Integer part of the per-client DSP pipeline: client PCM bytes to channel
//! samples, the exact position arithmetic of the resampler, and the packing
//! of samples into bytes for the mixer rings.
//!
//! Samples in 32-bit floating point are carried as their bit patterns; the
//! arithmetic on them happens outside.
use crate::bytes::{as_signed16, as_unsigned16, get_i16, get_u32, le16_at, le32_at, pattern16, push_u16, u16_le};
use crate::common::{pcm_format_bytes, pcm_format_bytes_spec, FORMAT_FLOAT_LE};
use crate::text::str_eq;
use vstd::arithmetic::div_mod::{
    lemma_fundamental_div_mod, lemma_fundamental_div_mod_converse, lemma_mod_multiples_vanish,
};
use vstd::prelude::*;

verus! {

/// Taps per kernel row.
pub const TAPS: usize = 48;

/// Precomputed fractional delays of the kernel table.
pub const PHASES: usize = 256;

// ── Greatest common divisor ──
/// `g` divides both numbers, and nothing larger does.
pub open spec fn is_gcd(g: int, a: int, b: int) -> bool {
    &&& g > 0
    &&& a % g == 0
    &&& b % g == 0
    &&& forall|d: int| d > 0 && #[trigger] (a % d) == 0 && b % d == 0 ==> d <= g
}

proof fn lemma_divides_sum(d: int, q: int, x: int, r: int)
    requires
        d > 0,
        x % d == 0,
        r % d == 0,
    ensures
        (x * q + r) % d == 0,
{
    lemma_fundamental_div_mod(x, d);
    lemma_fundamental_div_mod(r, d);
    let k = (x / d) * q + r / d;
    assert(x * q + r == d * k) by (nonlinear_arith)
        requires
            x == d * (x / d),
            r == d * (r / d),
            k == (x / d) * q + r / d,
    ;
    lemma_mod_multiples_vanish(k, 0, d);
    assert(d * k == d * k + 0);
}

/// One step of Euclid's algorithm keeps the common divisors.
proof fn lemma_gcd_step(g: int, a: int, b: int)
    requires
        b > 0,
        a >= 0,
        is_gcd(g, b, a % b),
    ensures
        is_gcd(g, a, b),
{
    lemma_fundamental_div_mod(a, b);
    lemma_divides_sum(g, a / b, b, a % b);
    assert forall|d: int| d > 0 && #[trigger] (a % d) == 0 && b % d == 0 implies d <= g by {
        lemma_divides_sum(d, -(a / b), b, a);
        assert(b * (-(a / b)) + a == a % b) by (nonlinear_arith)
            requires
                a == b * (a / b) + a % b,
        ;
        assert(b % d == 0 && (a % b) % d == 0);
    }
}

proof fn lemma_gcd_zero(a: int)
    requires
        a > 0,
    ensures
        is_gcd(a, a, 0),
{
    lemma_mod_multiples_vanish(1, 0, a);
    assert forall|d: int| d > 0 && #[trigger] (a % d) == 0 && 0int % d == 0 implies d <= a by {
        if d > a {
            vstd::arithmetic::div_mod::lemma_small_mod(a as nat, d as nat);
        }
    }
    vstd::arithmetic::div_mod::lemma_small_mod(0, a as nat);
}

fn gcd(a: u64, b: u64) -> (g: u64)
    requires
        a > 0 || b > 0,
    ensures
        is_gcd(g as int, a as int, b as int),
    decreases b,
{
    if b == 0 {
        proof {
            lemma_gcd_zero(a as int);
        }
        a
    } else {
        let g: u64 = gcd(b, a % b);
        proof {
            lemma_gcd_step(g as int, a as int, b as int);
        }
        g
    }
}

// ── Resampler ──
/// Which interpolation an output point asks for.
#[derive(Clone, Copy, Debug, PartialEq, Eq, Structural)]
pub enum Kind {
    /// Windowed sinc over `TAPS` frames.
    Sinc,
    /// Straight line between two frames.
    Linear,
}

/// How many input frames an output point looks at.
pub open spec fn window_frames(kind: Kind) -> nat {
    match kind {
        Kind::Sinc => TAPS as nat,
        Kind::Linear => 2,
    }
}

/// How many input frames stay behind as context for the next chunk.
pub open spec fn kept_frames(kind: Kind) -> nat {
    match kind {
        Kind::Sinc => (TAPS - 1) as nat,
        Kind::Linear => 1,
    }
}

/// One output frame, before interpolation: the interleaved stereo input
/// samples around it and how far between two input frames it lies, counted in
/// `step_den`-ths.
pub struct Point {
    pub phase: u64,
    pub window: Vec<u32>,
}

/// What an output point is computed from.
pub ghost struct PointView {
    pub phase: int,
    pub window: Seq<u32>,
}

impl View for Point {
    type V = PointView;

    open spec fn view(&self) -> PointView {
        PointView { phase: self.phase as int, window: self.window@ }
    }
}

/// The views of a list of output points.
pub open spec fn point_views(s: Seq<Point>) -> Seq<PointView> {
    s.map_values(|p: Point| p@)
}

/// A resampler's position in its input: the next output frame lies `pos`
/// `den`-ths of a frame after the first frame of `hist`, and each output
/// frame advances it by `num`.
pub ghost struct Position {
    pub kind: Kind,
    pub num: nat,
    pub den: nat,
    pub pos: nat,
    pub hist: Seq<u32>,
}

/// The output point at position `pos` in `hist`.
pub open spec fn point_at(kind: Kind, den: nat, pos: nat, hist: Seq<u32>) -> PointView {
    let base = (pos / den) as int;
    PointView {
        phase: (pos % den) as int,
        window: hist.subrange(2 * base, 2 * base + 2 * window_frames(kind)),
    }
}

/// Whether `hist` reaches far enough to produce the output point at `pos`.
pub open spec fn ready(den: nat, pos: nat, hist: Seq<u32>) -> bool {
    pos / den + TAPS <= hist.len() / 2
}

/// How much of `hist` lies after position `pos`.
pub open spec fn distance(den: nat, pos: nat, hist: Seq<u32>) -> nat {
    let end = (hist.len() / 2) * den;
    if pos < end {
        (end - pos) as nat
    } else {
        0
    }
}

/// The output points that `hist` allows, from `pos` on.
pub open spec fn emitted(kind: Kind, num: nat, den: nat, pos: nat, hist: Seq<u32>) -> Seq<PointView>
    decreases distance(den, pos, hist),
{
    if num > 0 && den > 0 && ready(den, pos, hist) {
        proof {
            lemma_ready_is_before_end(den, pos, hist);
        }
        seq![point_at(kind, den, pos, hist)] + emitted(kind, num, den, pos + num, hist)
    } else {
        Seq::empty()
    }
}

/// The position after those output points.
pub open spec fn end_pos(num: nat, den: nat, pos: nat, hist: Seq<u32>) -> nat
    decreases distance(den, pos, hist),
{
    if num > 0 && den > 0 && ready(den, pos, hist) {
        proof {
            lemma_ready_is_before_end(den, pos, hist);
        }
        end_pos(num, den, pos + num, hist)
    } else {
        pos
    }
}

pub proof fn lemma_ready_is_before_end(den: nat, pos: nat, hist: Seq<u32>)
    requires
        den > 0,
        ready(den, pos, hist),
    ensures
        pos < (hist.len() / 2) * den,
{
    lemma_fundamental_div_mod(pos as int, den as int);
    assert(pos < (hist.len() / 2) * den) by (nonlinear_arith)
        requires
            den > 0,
            pos == den * (pos as int / den as int) + pos as int % den as int,
            0 <= pos as int % den as int,
            (pos as int % den as int) < den,
            pos as int / den as int + 48 <= hist.len() / 2,
    ;
}

impl Position {
    /// The numbers that every resampler keeps.
    pub open spec fn wf(self) -> bool {
        &&& 0 < self.num < 0x1_0000_0000
        &&& 0 < self.den < 0x1_0000_0000
        &&& self.hist.len() % 2 == 0
        &&& self.hist.len() <= 2 * (TAPS - 1)
        &&& self.pos < (self.hist.len() / 2) * self.den + self.num
        &&& !ready(self.den, self.pos, self.hist)
    }

    /// Whether the position stays within 64 bits while `input` is used.
    pub open spec fn fits(self, input: Seq<u32>) -> bool {
        ((self.hist.len() + input.len()) / 2) * self.den + self.num <= u64::MAX
    }

    /// Frames that are no longer needed once the position has reached `pos`
    /// in `hist`.
    pub open spec fn consumed(self, pos: nat, hist: Seq<u32>) -> nat {
        let free = if hist.len() / 2 < kept_frames(self.kind) {
            0
        } else {
            (hist.len() / 2 - kept_frames(self.kind)) as nat
        };
        if pos / self.den < free {
            pos / self.den
        } else {
            free
        }
    }

    /// The points produced when `input` arrives.
    pub open spec fn output(self, input: Seq<u32>) -> Seq<PointView> {
        emitted(self.kind, self.num, self.den, self.pos, self.hist + input)
    }

    /// The position after `input` has been used.
    pub open spec fn after(self, input: Seq<u32>) -> Position {
        let hist = self.hist + input;
        let pos = end_pos(self.num, self.den, self.pos, hist);
        let used = self.consumed(pos, hist);
        Position { pos: (pos - used * self.den) as nat, hist: hist.skip(2 * used as int), ..self }
    }
}

/// More input does not change the points that were possible before; the rest
/// follows from where those left off.
proof fn lemma_extend(kind: Kind, num: nat, den: nat, pos: nat, hist: Seq<u32>, more: Seq<u32>)
    requires
        num > 0,
        den > 0,
    ensures
        emitted(kind, num, den, pos, hist + more) == emitted(kind, num, den, pos, hist) + emitted(
            kind,
            num,
            den,
            end_pos(num, den, pos, hist),
            hist + more,
        ),
        end_pos(num, den, pos, hist + more) == end_pos(
            num,
            den,
            end_pos(num, den, pos, hist),
            hist + more,
        ),
    decreases distance(den, pos, hist),
{
    let all = hist + more;
    if ready(den, pos, hist) {
        lemma_ready_is_before_end(den, pos, hist);
        lemma_extend(kind, num, den, pos + num, hist, more);
        assert(ready(den, pos, all));
        let base = (pos / den) as int;
        assert(all.subrange(2 * base, 2 * base + 2 * window_frames(kind)) =~= hist.subrange(
            2 * base,
            2 * base + 2 * window_frames(kind),
        ));
        let first = seq![point_at(kind, den, pos, hist)];
        let e = end_pos(num, den, pos, hist);
        assert(first + (emitted(kind, num, den, pos + num, hist) + emitted(kind, num, den, e, all))
            =~= (first + emitted(kind, num, den, pos + num, hist)) + emitted(
            kind,
            num,
            den,
            e,
            all,
        ));
    } else {
        assert(emitted(kind, num, den, pos, hist) =~= Seq::empty());
        assert(emitted(kind, num, den, pos, all) =~= Seq::<PointView>::empty() + emitted(
            kind,
            num,
            den,
            pos,
            all,
        ));
    }
}

proof fn lemma_shift_div(den: nat, pos: nat, c: nat)
    requires
        den > 0,
        c <= pos / den,
    ensures
        c * den <= pos,
        (pos - c * den) as nat / den == pos / den - c,
        (pos - c * den) as nat % den == pos % den,
{
    lemma_fundamental_div_mod(pos as int, den as int);
    assert(c * den <= pos && pos - c * den == (pos as int / den as int - c) * den + pos as int
        % den as int) by (nonlinear_arith)
        requires
            den > 0,
            c <= pos as int / den as int,
            pos == den * (pos as int / den as int) + pos as int % den as int,
            0 <= pos as int % den as int,
    ;
    lemma_fundamental_div_mod_converse(
        pos - c * den,
        den as int,
        pos as int / den as int - c,
        pos as int % den as int,
    );
}

/// Frames before the position can be dropped without changing the points.
proof fn lemma_shift(kind: Kind, num: nat, den: nat, pos: nat, hist: Seq<u32>, c: nat)
    requires
        num > 0,
        den > 0,
        c <= pos / den,
        2 * c <= hist.len(),
    ensures
        emitted(kind, num, den, (pos - c * den) as nat, hist.skip(2 * c as int)) == emitted(
            kind,
            num,
            den,
            pos,
            hist,
        ),
        c * den <= pos,
        end_pos(num, den, (pos - c * den) as nat, hist.skip(2 * c as int)) == end_pos(
            num,
            den,
            pos,
            hist,
        ) - c * den,
        c <= end_pos(num, den, pos, hist) / den,
    decreases distance(den, pos, hist),
{
    let short = hist.skip(2 * c as int);
    let moved = (pos - c * den) as nat;
    lemma_shift_div(den, pos, c);
    assert(short.len() / 2 == hist.len() / 2 - c);
    if ready(den, pos, hist) {
        lemma_ready_is_before_end(den, pos, hist);
        assert(ready(den, moved, short));
        lemma_ready_is_before_end(den, moved, short);
        let base = (pos / den) as int;
        assert(short.subrange(2 * (base - c), 2 * (base - c) + 2 * window_frames(kind))
            =~= hist.subrange(2 * base, 2 * base + 2 * window_frames(kind)));
        vstd::arithmetic::div_mod::lemma_div_is_ordered(
            pos as int,
            (pos + num) as int,
            den as int,
        );
        lemma_shift(kind, num, den, pos + num, hist, c);
        assert((pos + num - c * den) as nat == moved + num);
    } else {
        assert(!ready(den, moved, short));
    }
}

proof fn lemma_end_not_ready(num: nat, den: nat, pos: nat, hist: Seq<u32>)
    requires
        num > 0,
        den > 0,
    ensures
        !ready(den, end_pos(num, den, pos, hist), hist),
        pos <= end_pos(num, den, pos, hist),
        pos < (hist.len() / 2) * den + num ==> end_pos(num, den, pos, hist) < (hist.len() / 2) * den
            + num,
    decreases distance(den, pos, hist),
{
    if ready(den, pos, hist) {
        lemma_ready_is_before_end(den, pos, hist);
        lemma_end_not_ready(num, den, pos + num, hist);
    }
}

proof fn lemma_after_wf(p: Position, input: Seq<u32>)
    requires
        p.wf(),
        input.len() % 2 == 0,
    ensures
        p.after(input).wf(),
        p.consumed(end_pos(p.num, p.den, p.pos, p.hist + input), p.hist + input) * p.den <= end_pos(
            p.num,
            p.den,
            p.pos,
            p.hist + input,
        ),
{
    let hist = p.hist + input;
    let e = end_pos(p.num, p.den, p.pos, hist);
    let used = p.consumed(e, hist);
    let frames = hist.len() / 2;
    assert(p.pos < frames * p.den + p.num) by (nonlinear_arith)
        requires
            p.pos < (p.hist.len() / 2) * p.den + p.num,
            p.hist.len() / 2 <= frames,
            p.den > 0,
    ;
    lemma_end_not_ready(p.num, p.den, p.pos, hist);
    lemma_shift_div(p.den, e, used);
    let q = p.after(input);
    assert(q.hist.len() / 2 == frames - used);
    assert(q.pos < (frames - used) * p.den + p.num) by (nonlinear_arith)
        requires
            e < frames * p.den + p.num,
            q.pos == e - used * p.den,
    ;
}

/// Pieces of a stream, put together.
pub open spec fn joined(pieces: Seq<Seq<u32>>) -> Seq<u32>
    decreases pieces.len(),
{
    if pieces.len() == 0 {
        Seq::empty()
    } else {
        pieces[0] + joined(pieces.drop_first())
    }
}

/// The position after all pieces were fed, one by one.
pub open spec fn after_pieces(p: Position, pieces: Seq<Seq<u32>>) -> Position
    decreases pieces.len(),
{
    if pieces.len() == 0 {
        p
    } else {
        after_pieces(p.after(pieces[0]), pieces.drop_first())
    }
}

/// All that comes out when the pieces are fed one by one.
pub open spec fn output_of_pieces(p: Position, pieces: Seq<Seq<u32>>) -> Seq<PointView>
    decreases pieces.len(),
{
    if pieces.len() == 0 {
        Seq::empty()
    } else {
        p.output(pieces[0]) + output_of_pieces(p.after(pieces[0]), pieces.drop_first())
    }
}

/// However a stream of whole frames is cut into pieces, feeding them one by one
/// is the same as feeding it at once: the same points come out, in the same
/// order, and the resampler ends in the same state.
pub proof fn law_chunk_split_invariance(p: Position, pieces: Seq<Seq<u32>>)
    requires
        p.wf(),
        pieces.len() > 0,
        forall|i: int| 0 <= i < pieces.len() ==> (#[trigger] pieces[i]).len() % 2 == 0,
    ensures
        joined(pieces).len() % 2 == 0,
        output_of_pieces(p, pieces) == p.output(joined(pieces)),
        after_pieces(p, pieces) == p.after(joined(pieces)),
    decreases pieces.len(),
{
    let a = pieces[0];
    let rest = pieces.drop_first();
    lemma_after_wf(p, a);
    if rest.len() == 0 {
        assert(joined(rest) =~= Seq::empty());
        assert(joined(pieces) =~= a);
        assert(output_of_pieces(p.after(a), rest) =~= Seq::empty());
        assert(after_pieces(p.after(a), rest) == p.after(a));
        assert(output_of_pieces(p, pieces) =~= p.output(a));
    } else {
        assert forall|i: int| 0 <= i < rest.len() implies (#[trigger] rest[i]).len() % 2 == 0 by {
            assert(rest[i] == pieces[i + 1]);
        }
        law_chunk_split_invariance(p.after(a), rest);
        lemma_two_pieces(p, a, joined(rest));
    }
}

proof fn lemma_two_pieces(p: Position, a: Seq<u32>, b: Seq<u32>)
    requires
        p.wf(),
        a.len() % 2 == 0,
        b.len() % 2 == 0,
    ensures
        p.output(a + b) == p.output(a) + p.after(a).output(b),
        p.after(a + b) == p.after(a).after(b),
{
    let h1 = p.hist + a;
    let all = p.hist + (a + b);
    assert(all =~= h1 + b);
    let e1 = end_pos(p.num, p.den, p.pos, h1);
    let e = end_pos(p.num, p.den, p.pos, all);
    lemma_extend(p.kind, p.num, p.den, p.pos, h1, b);
    lemma_after_wf(p, a);
    let c1 = p.consumed(e1, h1);
    let q = p.after(a);
    assert(q.hist + b =~= all.skip(2 * c1 as int));
    lemma_shift(p.kind, p.num, p.den, e1, all, c1);
    // The second step consumes what is left of what one step would consume.
    let e2 = end_pos(q.num, q.den, q.pos, q.hist + b);
    assert(e2 == e - c1 * p.den);
    lemma_shift_div(p.den, e, c1);
    let c2 = q.consumed(e2, q.hist + b);
    let c = p.consumed(e, all);
    assert((q.hist + b).len() / 2 == all.len() / 2 - c1);
    assert(c == c1 + c2);
    assert(q.after(b).hist =~= all.skip(2 * c as int));
    lemma_after_wf(p, a + b);
    lemma_after_wf(q, b);
    assert((e2 - c2 * p.den) == (e - c * p.den)) by (nonlinear_arith)
        requires
            e2 == e - c1 * p.den,
            c == c1 + c2,
    ;
}

/// The history between two calls stays shorter than one kernel row, and the
/// position never runs more than one output step past it.
pub proof fn law_history_bounded(p: Position, input: Seq<u32>)
    requires
        p.wf(),
        input.len() % 2 == 0,
    ensures
        p.after(input).wf(),
        p.after(input).hist.len() < 2 * TAPS,
{
    lemma_after_wf(p, input);
}

/// Output positions are exact: the `k`-th point after position `pos` lies
/// exactly `k * num` further on, whatever the length of the stream.
pub proof fn law_exact_positions(kind: Kind, num: nat, den: nat, pos: nat, hist: Seq<u32>, k: int)
    requires
        num > 0,
        den > 0,
        0 <= k < emitted(kind, num, den, pos, hist).len(),
    ensures
        emitted(kind, num, den, pos, hist)[k] == point_at(kind, den, (pos + k * num) as nat, hist),
    decreases k,
{
    lemma_ready_or_empty(kind, num, den, pos, hist);
    if k > 0 {
        law_exact_positions(kind, num, den, pos + num, hist, k - 1);
        assert(pos + num + (k - 1) * num == pos + k * num) by (nonlinear_arith);
    } else {
        assert(0 * num == 0);
    }
}

proof fn lemma_emitted_count(kind: Kind, num: nat, den: nat, pos: nat, hist: Seq<u32>, k: int)
    requires
        num > 0,
        den > 0,
        0 <= k,
    ensures
        k < emitted(kind, num, den, pos, hist).len() <==> (pos + k * num) / den as int + TAPS
            <= hist.len() / 2,
        end_pos(num, den, pos, hist) == pos + emitted(kind, num, den, pos, hist).len() * num,
    decreases distance(den, pos, hist), k,
{
    let n = emitted(kind, num, den, pos, hist).len();
    if ready(den, pos, hist) {
        lemma_ready_is_before_end(den, pos, hist);
        let later = emitted(kind, num, den, pos + num, hist);
        assert(n == 1 + later.len());
        if k > 0 {
            lemma_emitted_count(kind, num, den, pos + num, hist, k - 1);
            assert(pos + num + (k - 1) * num == pos + k * num) by (nonlinear_arith);
        } else {
            lemma_emitted_count(kind, num, den, pos + num, hist, 0);
            assert(0 * num == 0);
        }
        assert(pos + num + later.len() * num == pos + (1 + later.len()) * num)
            by (nonlinear_arith);
    } else {
        assert(n == 0);
        assert(0 * num == 0);
        assert(pos <= pos + k * num) by (nonlinear_arith)
            requires
                k >= 0,
        ;
        vstd::arithmetic::div_mod::lemma_div_is_ordered(pos as int, pos + k * num, den as int);
    }
}

/// Channels stay apart and frames stay whole: the `k`-th point that `input`
/// makes possible lies `k` steps on, and its window is the interleaved input
/// as it came in, from the frame at that place on, 48 frames of it for the
/// sinc and two for the straight line. So its even entries come from left
/// samples and its odd ones from right samples. A point comes out as soon as
/// 48 frames are there from its place on, and not before.
pub proof fn law_points_hold_the_input(p: Position, input: Seq<u32>, k: int)
    requires
        p.wf(),
        input.len() % 2 == 0,
        0 <= k,
    ensures
        ({
            let all = p.hist + input;
            let at = (p.pos + k * p.num) / p.den as int;
            let out = p.output(input);
            &&& k < out.len() <==> 2 * at + 96 <= all.len()
            &&& k < out.len() ==> {
                &&& out[k].phase == (p.pos + k * p.num) % p.den as int
                &&& out[k].window.len() == if p.kind == Kind::Sinc {
                    96int
                } else {
                    4
                }
                &&& forall|j: int|
                    0 <= j < out[k].window.len() ==> #[trigger] out[k].window[j] == all[2 * at + j]
            }
        }),
{
    let all = p.hist + input;
    let at = (p.pos + k * p.num) / p.den as int;
    lemma_emitted_count(p.kind, p.num, p.den, p.pos, all, k);
    assert(k * p.num >= 0) by (nonlinear_arith)
        requires
            k >= 0,
            p.num > 0,
    ;
    vstd::arithmetic::div_mod::lemma_div_pos_is_pos(p.pos + k * p.num, p.den as int);
    if k < p.output(input).len() {
        law_exact_positions(p.kind, p.num, p.den, p.pos, all, k);
    }
}

/// Nothing of the input is lost between two calls: what is kept is the end of
/// what there was, and counted from there the position is as many steps on as
/// points came out.
pub proof fn law_no_input_lost(p: Position, input: Seq<u32>)
    requires
        p.wf(),
        input.len() % 2 == 0,
    ensures
        ({
            let all = p.hist + input;
            let q = p.after(input);
            let gone = all.len() - q.hist.len();
            &&& q.kind == p.kind && q.num == p.num && q.den == p.den
            &&& 0 <= gone && gone % 2 == 0
            &&& q.hist == all.skip(gone)
            &&& q.pos + (gone / 2) * p.den == p.pos + p.output(input).len() * p.num
        }),
{
    let all = p.hist + input;
    let e = end_pos(p.num, p.den, p.pos, all);
    lemma_emitted_count(p.kind, p.num, p.den, p.pos, all, 0);
    lemma_after_wf(p, input);
    let used = p.consumed(e, all);
    assert(2 * used <= all.len());
    assert((all.len() - p.after(input).hist.len()) / 2 == used);
}

/// A stream from its start on, however it is cut into pieces: entry `j` of the
/// window of the `k`-th point is sample `2 * floor(k * num / den) + j` of all
/// input so far.
pub proof fn law_stream_is_heard_in_place(p: Position, pieces: Seq<Seq<u32>>, k: int)
    requires
        p.wf(),
        p.pos == 0,
        p.hist.len() == 0,
        pieces.len() > 0,
        forall|i: int| 0 <= i < pieces.len() ==> (#[trigger] pieces[i]).len() % 2 == 0,
        0 <= k,
    ensures
        ({
            let all = pieces.flatten();
            let at = (k * p.num) / p.den as int;
            let out = output_of_pieces(p, pieces);
            &&& k < out.len() <==> 2 * at + 96 <= all.len()
            &&& k < out.len() ==> {
                &&& out[k].phase == (k * p.num) % p.den as int
                &&& out[k].window.len() == if p.kind == Kind::Sinc {
                    96int
                } else {
                    4
                }
                &&& forall|j: int|
                    0 <= j < out[k].window.len() ==> #[trigger] out[k].window[j] == all[2 * at + j]
            }
        }),
{
    law_chunk_split_invariance(p, pieces);
    lemma_joined_is_flat(pieces);
    law_points_hold_the_input(p, joined(pieces), k);
    assert(p.hist + joined(pieces) =~= joined(pieces));
}

proof fn lemma_joined_is_flat(pieces: Seq<Seq<u32>>)
    ensures
        joined(pieces) == pieces.flatten(),
    decreases pieces.len(),
{
    if pieces.len() > 0 {
        lemma_joined_is_flat(pieces.drop_first());
    }
}

proof fn lemma_ready_or_empty(kind: Kind, num: nat, den: nat, pos: nat, hist: Seq<u32>)
    requires
        num > 0,
        den > 0,
        emitted(kind, num, den, pos, hist).len() > 0,
    ensures
        emitted(kind, num, den, pos, hist) == seq![point_at(kind, den, pos, hist)] + emitted(
            kind,
            num,
            den,
            pos + num,
            hist,
        ),
{
}

/// Stateful streaming resampler for interleaved stereo.
///
/// The position is tracked as an exact integer in `1/step_den`-ths of an
/// input frame (`step = src/gcd : dst/gcd`).
pub struct Resampler {
    kind: Kind,
    step_num: u64,
    step_den: u64,
    pos: u64,
    hist: Vec<u32>,
}

impl View for Resampler {
    type V = Position;

    closed spec fn view(&self) -> Position {
        Position {
            kind: self.kind,
            num: self.step_num as nat,
            den: self.step_den as nat,
            pos: self.pos as nat,
            hist: self.hist@,
        }
    }
}

/// The interpolation that a configured resampler name selects.
pub open spec fn kind_named(name: Seq<char>) -> Kind {
    if name == "linear"@ {
        Kind::Linear
    } else {
        Kind::Sinc
    }
}

impl Resampler {
    /// A resampler from rate `src` to rate `dst`. `None` when there is
    /// nothing to do (equal rates) or nothing to compute from (a zero rate).
    pub fn new(src: u32, dst: u32, kind: &str) -> (r: Option<Self>)
        ensures
            r is None <==> src == dst || src == 0 || dst == 0,
            r matches Some(x) ==> {
                &&& x@.wf()
                &&& x@.kind == kind_named(kind@)
                &&& x@.pos == 0
                &&& x@.hist == Seq::<u32>::empty()
                &&& exists|g: int|
                    #[trigger] is_gcd(g, src as int, dst as int) && x@.num == src as int / g
                        && x@.den == dst as int / g
                &&& x@.num * dst == x@.den * src
            },
    {
        if src == dst || src == 0 || dst == 0 {
            return None;
        }
        let kind = if str_eq(kind, "linear") {
            Kind::Linear
        } else {
            Kind::Sinc
        };
        let g: u64 = gcd(src as u64, dst as u64);
        proof {
            lemma_exact_quotient(src as int, g as int);
            lemma_exact_quotient(dst as int, g as int);
            lemma_fundamental_div_mod(src as int, g as int);
            lemma_fundamental_div_mod(dst as int, g as int);
            let (s, d) = (src as int / g as int, dst as int / g as int);
            assert(s * (g * d) == d * (g * s)) by (nonlinear_arith);
        }
        let r = Resampler {
            kind,
            step_num: src as u64 / g,
            step_den: dst as u64 / g,
            pos: 0,
            hist: Vec::new(),
        };
        proof {
            assert(r@.hist =~= Seq::<u32>::empty());
            assert(0nat / r@.den == 0) by (nonlinear_arith)
                requires
                    r@.den > 0,
            ;
        }
        Some(r)
    }

    /// Input frames per output frame, as a fraction in lowest terms.
    pub fn step(&self) -> (s: (u64, u64))
        ensures
            s.0 == self@.num,
            s.1 == self@.den,
    {
        (self.step_num, self.step_den)
    }

    /// Which interpolation the points ask for.
    pub fn kind(&self) -> (k: Kind)
        ensures
            k == self@.kind,
    {
        self.kind
    }

    /// Append interleaved stereo `input` and push the points that it makes
    /// possible onto `out`. Returns how many.
    pub fn resample(&mut self, input: &[u32], out: &mut Vec<Point>) -> (produced: usize)
        requires
            old(self)@.wf(),
            input@.len() % 2 == 0,
            old(self)@.fits(input@),
        ensures
            final(self)@ == old(self)@.after(input@),
            final(self)@.wf(),
            point_views(final(out)@) == point_views(old(out)@) + old(self)@.output(input@),
            produced == old(self)@.output(input@).len(),
    {
        let ghost p = self@;
        let ghost earlier = point_views(out@);
        let mut i: usize = 0;
        while i < input.len()
            invariant
                i <= input@.len(),
                self.kind == p.kind,
                self.step_num == p.num,
                self.step_den == p.den,
                self.pos == p.pos,
                self.hist@ == p.hist + input@.subrange(0, i as int),
            decreases input@.len() - i,
        {
            self.hist.push(input[i]);
            i = i + 1;
            assert(input@.subrange(0, i as int) =~= input@.subrange(0, i - 1).push(input@[i - 1]));
            assert(self.hist@ =~= p.hist + input@.subrange(0, i as int));
        }
        assert(input@.subrange(0, i as int) =~= input@);
        let ghost hist = self.hist@;
        let frames: usize = self.hist.len() / 2;
        let window: usize = match self.kind {
            Kind::Sinc => TAPS,
            Kind::Linear => 2,
        };
        let keep: usize = match self.kind {
            Kind::Sinc => TAPS - 1,
            Kind::Linear => 1,
        };
        let mut produced: usize = 0;
        proof {
            assert(p.pos < frames * p.den + p.num) by (nonlinear_arith)
                requires
                    p.pos < (p.hist.len() / 2) * p.den + p.num,
                    p.hist.len() / 2 <= frames,
                    p.den > 0,
            ;
            assert(earlier =~= point_views(out@) + Seq::empty());
        }
        let ghost mut done: Seq<PointView> = Seq::empty();
        proof {
            lemma_div_at_most(p.pos, p.den);
            lemma_base_bound(p.pos, p.den, frames as nat, p.num);
        }
        let mut base: u64 = self.pos / self.step_den;
        while base + (TAPS as u64) <= frames as u64
            invariant
                base == self.pos as nat / p.den,
                base <= self.pos,
                base <= frames + p.num,
                2 * frames <= usize::MAX,
                frames * p.den + p.num <= u64::MAX,
                p.wf(),
                hist == p.hist + input@,
                self.hist@ == hist,
                self.kind == p.kind,
                self.step_num == p.num,
                self.step_den == p.den,
                frames == hist.len() / 2,
                hist.len() % 2 == 0,
                window == window_frames(p.kind),
                self.pos < frames * p.den + p.num,
                produced == done.len(),
                produced <= self.pos,
                point_views(out@) == earlier + done,
                emitted(p.kind, p.num, p.den, p.pos, hist) == done + emitted(
                    p.kind,
                    p.num,
                    p.den,
                    self.pos as nat,
                    hist,
                ),
                end_pos(p.num, p.den, p.pos, hist) == end_pos(p.num, p.den, self.pos as nat, hist),
            decreases distance(p.den, self.pos as nat, hist),
        {
            proof {
                assert(ready(p.den, self.pos as nat, hist));
                lemma_ready_is_before_end(p.den, self.pos as nat, hist);
            }
            let from: usize = base as usize;
            let phase: u64 = self.pos % self.step_den;
            let mut w: Vec<u32> = Vec::new();
            let mut k: usize = 0;
            while k < 2 * window
                invariant
                    k <= 2 * window,
                    window <= TAPS,
                    from + TAPS <= frames,
                    frames == hist.len() / 2,
                    2 * frames <= usize::MAX,
                    self.hist@ == hist,
                    w@ == hist.subrange(2 * from, 2 * from + k),
                decreases 2 * window - k,
            {
                w.push(self.hist[2 * from + k]);
                k = k + 1;
                assert(hist.subrange(2 * from as int, 2 * from + k) =~= hist.subrange(
                    2 * from as int,
                    2 * from + k - 1,
                ).push(hist[2 * from + k - 1]));
            }
            let pt = Point { phase, window: w };
            let ghost here = point_at(p.kind, p.den, self.pos as nat, hist);
            assert(pt@ == here);
            let ghost before = out@;
            out.push(pt);
            proof {
                assert(point_views(out@) =~= point_views(before).push(here));
                let rest = emitted(p.kind, p.num, p.den, (self.pos + p.num) as nat, hist);
                assert(emitted(p.kind, p.num, p.den, self.pos as nat, hist) == seq![here] + rest);
                assert(done + (seq![here] + rest) =~= done.push(here) + rest);
                done = done.push(here);
                assert(point_views(out@) =~= earlier + done);
            }
            assert(produced < out.len());
            produced = produced + 1;
            self.pos = self.pos + self.step_num;
            base = self.pos / self.step_den;
            proof {
                lemma_div_at_most(self.pos as nat, p.den);
                lemma_base_bound(self.pos as nat, p.den, frames as nat, p.num);
            }
        }
        proof {
            assert(!ready(p.den, self.pos as nat, hist));
            assert(emitted(p.kind, p.num, p.den, self.pos as nat, hist) =~= Seq::empty());
            assert(done =~= p.output(input@));
            lemma_after_wf(p, input@);
        }
        let free: u64 = if frames < keep {
            0
        } else {
            (frames - keep) as u64
        };
        let consumed: u64 = if base < free {
            base
        } else {
            free
        };
        assert(consumed == p.consumed(self.pos as nat, hist));
        if consumed > 0 {
            let rest = self.hist.split_off(consumed as usize * 2);
            self.hist = rest;
            self.pos = self.pos - consumed * self.step_den;
        }
        assert(self.hist@ =~= hist.skip(2 * consumed as int));
        assert(0 * p.den == 0);
        produced
    }
}

proof fn lemma_div_at_most(a: nat, d: nat)
    requires
        d > 0,
    ensures
        a / d <= a,
{
    vstd::arithmetic::div_mod::lemma_div_is_ordered_by_denominator(a as int, 1, d as int);
}

proof fn lemma_base_bound(pos: nat, den: nat, frames: nat, num: nat)
    requires
        den > 0,
        pos < frames * den + num,
    ensures
        pos / den <= frames + num,
{
    lemma_fundamental_div_mod(pos as int, den as int);
    let q = pos as int / den as int;
    let r = pos as int % den as int;
    assert(q <= frames + num) by (nonlinear_arith)
        requires
            den > 0,
            pos < frames * den + num,
            pos == den * q + r,
            0 <= r,
    ;
}

proof fn lemma_exact_quotient(a: int, g: int)
    requires
        a > 0,
        g > 0,
        a % g == 0,
    ensures
        0 < a / g <= a,
{
    lemma_fundamental_div_mod(a, g);
    assert(0 < a / g <= a) by (nonlinear_arith)
        requires
            a == g * (a / g),
            a > 0,
            g > 0,
    ;
}

// ── Channel folding ──
/// The samples that one side of a stereo frame averages over, in channel
/// order: 16-bit samples by their sum, floating-point samples as bit patterns.
pub enum Channel {
    Int { sum: i32, count: u32 },
    Float { bits: Vec<u32> },
}

/// What one side of a stereo frame averages over.
pub ghost enum ChannelView {
    Int { sum: int, count: nat },
    Float { bits: Seq<u32> },
}

impl View for Channel {
    type V = ChannelView;

    open spec fn view(&self) -> ChannelView {
        match *self {
            Channel::Int { sum, count } => ChannelView::Int {
                sum: sum as int,
                count: count as nat,
            },
            Channel::Float { bits } => ChannelView::Float { bits: bits@ },
        }
    }
}

/// The views of a list of channel values.
pub open spec fn channel_views(s: Seq<Channel>) -> Seq<ChannelView> {
    s.map_values(|c: Channel| c@)
}

/// Bytes of one client frame.
pub open spec fn client_frame_bytes(fmt: u32, ch: u32) -> int {
    pcm_format_bytes_spec((fmt % 0x1_0000) as u16) * ch
}

/// How many of `ch` client channels go to one side: a mono channel goes to
/// both, and of several the even ones go left and the odd ones right. Channels
/// after the eighth are ignored.
pub open spec fn side_count(ch: u32, right: bool) -> nat {
    let m: nat = if ch > 8 {
        8
    } else {
        ch as nat
    };
    if ch == 1 {
        1
    } else if right {
        m / 2
    } else {
        (m + 1) / 2
    }
}

/// The client channel that is the `i`-th of one side.
pub open spec fn side_channel(ch: u32, right: bool, i: int) -> int {
    if ch == 1 {
        0
    } else if right {
        2 * i + 1
    } else {
        2 * i
    }
}

/// The sum of the first `n` 16-bit samples of one side of the frame at
/// `base`.
pub open spec fn side_sum(src: Seq<u8>, base: int, ch: u32, right: bool, n: nat) -> int
    decreases n,
{
    if n == 0 {
        0
    } else {
        side_sum(src, base, ch, right, (n - 1) as nat) + as_signed16(
            le16_at(src, base + 2 * side_channel(ch, right, n - 1)),
        )
    }
}

/// One side of frame `f`.
pub open spec fn folded_side(src: Seq<u8>, fmt: u32, ch: u32, f: int, right: bool) -> ChannelView {
    let base = f * client_frame_bytes(fmt, ch);
    let n = side_count(ch, right);
    if fmt == FORMAT_FLOAT_LE {
        ChannelView::Float {
            bits: Seq::new(n, |i: int| le32_at(src, base + 4 * side_channel(ch, right, i)) as u32),
        }
    } else {
        ChannelView::Int { sum: side_sum(src, base, ch, right, n), count: n }
    }
}

/// The first `frames` frames, folded to interleaved stereo.
pub open spec fn folded(src: Seq<u8>, fmt: u32, ch: u32, frames: nat) -> Seq<ChannelView> {
    Seq::new(2 * frames, |i: int| folded_side(src, fmt, ch, i / 2, i % 2 == 1))
}

/// One side of the frame that starts at `base`.
fn fold_side(src: &[u8], fmt: u32, ch: u32, base: usize, right: bool, Ghost(f): Ghost<int>) -> (c: Channel)
    requires
        ch >= 1,
        base == f * client_frame_bytes(fmt, ch),
        base + client_frame_bytes(fmt, ch) <= src@.len(),
    ensures
        c@ == folded_side(src@, fmt, ch, f, right),
{
    let m: u32 = if ch > 8 {
        8
    } else {
        ch
    };
    let n: u32 = if ch == 1 {
        1
    } else if right {
        m / 2
    } else {
        (m + 1) / 2
    };
    let start: usize = if right && ch != 1 {
        1
    } else {
        0
    };
    let mut i: u32 = 0;
    if fmt == FORMAT_FLOAT_LE {
        let mut bits: Vec<u32> = Vec::new();
        while i < n
            invariant
                i <= n,
                n == side_count(ch, right),
                start == side_channel(ch, right, 0),
                ch >= 1,
                fmt == FORMAT_FLOAT_LE,
                base + client_frame_bytes(fmt, ch) <= src@.len(),
                bits@.len() == i,
                forall|k: int|
                    0 <= k < i ==> bits@[k] == le32_at(
                        src@,
                        base + 4 * side_channel(ch, right, k),
                    ),
            decreases n - i,
        {
            assert(base + 4 * ch <= src.len());
            bits.push(get_u32(src, base + 4 * (2 * i as usize + start)));
            i = i + 1;
        }
        let c = Channel::Float { bits };
        assert(bits@ =~= folded_side(src@, fmt, ch, f, right)->bits);
        c
    } else {
        let mut sum: i32 = 0;
        while i < n
            invariant
                i <= n,
                n == side_count(ch, right),
                start == side_channel(ch, right, 0),
                ch >= 1,
                fmt != FORMAT_FLOAT_LE,
                base + client_frame_bytes(fmt, ch) <= src@.len(),
                sum == side_sum(src@, base as int, ch, right, i as nat),
                -32768 * i <= sum <= 32768 * i,
            decreases n - i,
        {
            assert(base + 2 * ch <= src.len()) by {
                assert(2 * ch <= client_frame_bytes(fmt, ch)) by (nonlinear_arith)
                    requires
                        client_frame_bytes(fmt, ch) == pcm_format_bytes_spec(
                            (fmt % 0x1_0000) as u16,
                        ) * ch,
                        pcm_format_bytes_spec((fmt % 0x1_0000) as u16) >= 2,
                ;
            }
            sum = sum + get_i16(src, base + 2 * (2 * i as usize + start)) as i32;
            i = i + 1;
        }
        Channel::Int { sum, count: n }
    }
}

/// Fold client PCM bytes to interleaved stereo, frame by frame. Bytes after
/// the last whole frame are ignored.
pub fn fold_to_stereo(src: &[u8], fmt: u32, ch: u32, out: &mut Vec<Channel>)
    requires
        ch >= 1,
        client_frame_bytes(fmt, ch) <= usize::MAX,
    ensures
        channel_views(final(out)@) == channel_views(old(out)@) + folded(
            src@,
            fmt,
            ch,
            src@.len() / client_frame_bytes(fmt, ch) as nat,
        ),
{
    let bps: usize = pcm_format_bytes((fmt % 0x1_0000) as u16);
    let fsz: usize = bps * ch as usize;
    assert(fsz > 0) by (nonlinear_arith)
        requires
            fsz == bps * ch,
            bps >= 2,
            ch >= 1,
    ;
    let frames: usize = src.len() / fsz;
    let ghost before = channel_views(out@);
    let mut f: usize = 0;
    let mut base: usize = 0;
    proof {
        lemma_fundamental_div_mod(src@.len() as int, fsz as int);
        vstd::arithmetic::mul::lemma_mul_is_commutative(frames as int, fsz as int);
        assert(channel_views(out@) =~= before + folded(src@, fmt, ch, 0));
    }
    while f < frames
        invariant
            f <= frames,
            fsz > 0,
            ch >= 1,
            fsz == client_frame_bytes(fmt, ch),
            frames * fsz <= src@.len(),
            base == f * fsz,
            channel_views(out@) == before + folded(src@, fmt, ch, f as nat),
        decreases frames - f,
    {
        assert(f * fsz + fsz <= frames * fsz) by (nonlinear_arith)
            requires
                f < frames,
                fsz > 0,
        ;
        assert(base + fsz <= src.len());
        let ghost prev = out@;
        let l = fold_side(src, fmt, ch, base, false, Ghost(f as int));
        let r = fold_side(src, fmt, ch, base, true, Ghost(f as int));
        out.push(l);
        out.push(r);
        assert((f + 1) * fsz == f * fsz + fsz) by (nonlinear_arith);
        base = base + fsz;
        f = f + 1;
        assert(channel_views(out@) =~= channel_views(prev).push(l@).push(r@));
        assert(channel_views(out@) =~= before + folded(src@, fmt, ch, f as nat));
    }
}

/// Every client channel below eight is heard, once and on its side: of a frame
/// of `ch` samples of 16 bits, the left side sums the even channels and the
/// right side the odd ones, and a single channel is heard on both.
pub proof fn law_channels_on_their_sides(src: Seq<u8>, ch: u32, frames: nat, f: int)
    requires
        1 <= ch,
        0 <= f < frames,
    ensures
        ({
            let out = folded(src, 2, ch, frames);
            let v = |c: int|
                if c < ch {
                    as_signed16(le16_at(src, (f * ch + c) * 2))
                } else {
                    0
                };
            &&& out.len() == 2 * frames
            &&& out[2 * f] == (ChannelView::Int {
                sum: v(0) + (if ch == 1 { 0 } else { v(2) + v(4) + v(6) }),
                count: if ch >= 7 {
                    4
                } else if ch >= 5 {
                    3
                } else if ch >= 3 {
                    2
                } else {
                    1
                },
            })
            &&& out[2 * f + 1] == (ChannelView::Int {
                sum: if ch == 1 {
                    v(0)
                } else {
                    v(1) + v(3) + v(5) + v(7)
                },
                count: if ch >= 8 {
                    4
                } else if ch >= 6 {
                    3
                } else if ch >= 4 {
                    2
                } else {
                    1
                },
            })
        }),
{
    let base = f * client_frame_bytes(2, ch);
    assert forall|c: int| #[trigger] ((f * ch + c) * 2) == base + 2 * c by {
        assert((f * ch + c) * 2 == f * (2 * ch) + 2 * c) by (nonlinear_arith);
    }
    reveal_with_fuel(side_sum, 5);
    assert(2 * f / 2 == f && (2 * f) % 2 == 0);
    assert((2 * f + 1) / 2 == f && (2 * f + 1) % 2 == 1);
}

/// The same for floating-point samples, which are kept apart: channel `c` is
/// number `c / 2` of its side, and no side has any others.
pub proof fn law_float_channels_on_their_sides(src: Seq<u8>, ch: u32, frames: nat, f: int, c: int)
    requires
        1 <= ch,
        0 <= f < frames,
        0 <= c < ch,
        c < 8,
    ensures
        ({
            let out = folded(src, 14, ch, frames);
            let v = le32_at(src, (f * ch + c) * 4) as u32;
            &&& out.len() == 2 * frames
            &&& out[2 * f] matches ChannelView::Float { bits: left } && out[2 * f + 1] matches (
                ChannelView::Float { bits: right }
            ) && if ch == 1 {
                left == seq![v] && right == seq![v]
            } else {
                &&& left.len() + right.len() == (if ch < 8 { ch as int } else { 8 })
                &&& 0 <= left.len() - right.len() <= 1
                &&& if c % 2 == 0 {
                    left[c / 2] == v
                } else {
                    right[c / 2] == v
                }
            }
        }),
{
    let base = f * client_frame_bytes(14, ch);
    assert((f * ch + c) * 4 == f * (4 * ch) + 4 * c) by (nonlinear_arith);
    assert(2 * f / 2 == f && (2 * f) % 2 == 0);
    assert((2 * f + 1) / 2 == f && (2 * f + 1) % 2 == 1);
    if ch == 1 {
        let v = le32_at(src, (f * ch + c) * 4) as u32;
        assert(folded_side(src, 14, ch, f, false)->bits =~= seq![v]);
        assert(folded_side(src, 14, ch, f, true)->bits =~= seq![v]);
    }
}

/// A client frame takes as many bytes as its channels have samples of two or
/// four bytes.
pub proof fn law_client_frame(ch: u32)
    ensures
        client_frame_bytes(2, ch) == ch + ch,
        client_frame_bytes(14, ch) == ch + ch + ch + ch,
        forall|fmt: u16|
            #[trigger] client_frame_bytes(fmt as u32, ch) == pcm_format_bytes_spec(fmt) * ch,
{
    assert(pcm_format_bytes_spec((2u32 % 0x1_0000) as u16) == 2);
    assert(pcm_format_bytes_spec((14u32 % 0x1_0000) as u16) == 4);
}

/// Packed samples can be read back: sample `i` stands at byte `2 * i`.
pub proof fn law_packed_reads_back(samples: Seq<i16>, i: int)
    requires
        0 <= i < samples.len(),
    ensures
        packed_s16(samples).len() == 2 * samples.len(),
        as_signed16(le16_at(packed_s16(samples), 2 * i)) == samples[i],
    decreases samples.len(),
{
    lemma_packed_len(samples);
    lemma_packed_len(samples.drop_last());
    if i < samples.len() - 1 {
        law_packed_reads_back(samples.drop_last(), i);
    }
}

proof fn lemma_packed_len(samples: Seq<i16>)
    ensures
        packed_s16(samples).len() == 2 * samples.len(),
    decreases samples.len(),
{
    if samples.len() > 0 {
        lemma_packed_len(samples.drop_last());
    }
}

/// The little-endian bytes of 16-bit samples.
pub open spec fn packed_s16(samples: Seq<i16>) -> Seq<u8>
    decreases samples.len(),
{
    if samples.len() == 0 {
        Seq::empty()
    } else {
        packed_s16(samples.drop_last()) + u16_le(
            as_unsigned16(samples.last() as int) as u16,
        )
    }
}

/// Append 16-bit samples to `out` as little-endian bytes.
pub fn pack_s16(samples: &[i16], out: &mut Vec<u8>)
    ensures
        final(out)@ == old(out)@ + packed_s16(samples@),
{
    let mut i: usize = 0;
    let ghost before = out@;
    assert(out@ =~= before + packed_s16(samples@.take(0)));
    while i < samples.len()
        invariant
            i <= samples@.len(),
            out@ == before + packed_s16(samples@.take(i as int)),
        decreases samples@.len() - i,
    {
        push_u16(out, pattern16(samples[i]));
        i = i + 1;
        assert(samples@.take(i as int).drop_last() =~= samples@.take(i - 1));
        assert(out@ =~= before + packed_s16(samples@.take(i as int)));
    }
    assert(samples@.take(i as int) =~= samples@);
}

/// The straight line is used exactly where it is asked for by name; whatever
/// else is configured means the sinc.
pub proof fn law_sinc_by_default(name: Seq<char>)
    ensures
        kind_named(name) == Kind::Linear <==> name == "linear"@,
        kind_named(name) != Kind::Linear <==> kind_named(name) == Kind::Sinc,
{
}

/// What is said of points and of sides is said of what they hold.
pub proof fn law_points_and_sides_are_what_they_hold(
    points: Seq<Point>,
    sides: Seq<Channel>,
    i: int,
)
    ensures
        point_views(points).len() == points.len(),
        channel_views(sides).len() == sides.len(),
        0 <= i < points.len() ==> point_views(points)[i].phase == points[i].phase && point_views(
            points,
        )[i].window == points[i].window@,
        0 <= i < sides.len() ==> match sides[i] {
            Channel::Int { sum, count } => channel_views(sides)[i] == (ChannelView::Int {
                sum: sum as int,
                count: count as nat,
            }),
            Channel::Float { bits } => channel_views(sides)[i] == (ChannelView::Float {
                bits: bits@,
            }),
        },
{
}

} // verus!
