//! Standing waves and the division experiment built on them.
//!
//! A standing wave encodes a divisor as evenly spaced attracting nodes; a
//! division experiment injects one buoyant "bubble" concept per unit of the
//! dividend and reads the remainder off settlement statistics.

use vstd::prelude::*;

verus! {

use crate::fixed::{
    clamped, div_tz, fabs, fadd, fclamp, fdiv, fdivi, fhalf, fmax, fmin, fmul, fneg, fsqrt, fsub,
    fx_add, fx_div, fx_mul, fx_ok, fx_sub, lemma_sqrt_tz, mag, osc, osc_at, sqrt_tz, MAG, SCALE,
};
use crate::ids::fresh_id;

/// How deep the breathing cycle modulates the amplitude (half a unit).
pub const BREATHING_DEPTH: i64 = 500_000;

/// Phase advance of the breathing cycle per tick, in triangle-wave phase
/// units (a full cycle is `4 * SCALE` units, so this is roughly one cycle
/// every 42 ticks).
pub const BREATHING_OMEGA: i64 = 95_000;

/// A standing wave with attracting nodes spaced `SCALE / frequency` apart.
/// Saturated nodes repel instead (an exclusion rule), and a breathing cycle
/// modulates the amplitude so the system never settles prematurely.
pub struct StandingWave {
    pub id: u128,
    /// The divisor that determines node spacing; positive.
    pub frequency: i64,
    /// Physical distance between nodes: `SCALE / frequency` in fixed point.
    pub node_spacing: i64,
    /// Base amplitude of the wave (force strength); non-negative.
    pub amplitude: i64,
    /// Node positions, in increasing order, all inside `[0, SCALE)`.
    pub node_positions: Vec<i64>,
    /// Is this wave currently active?
    pub active: bool,
    /// Maximum bubbles per node before repulsion kicks in.
    pub saturation_limit: u32,
    /// Current occupancy of each node.
    pub node_occupancy: Vec<u32>,
    /// Enable the time-varying amplitude.
    pub breathing_enabled: bool,
    /// Phase advance per tick.
    pub breathing_omega: i64,
    /// Current phase of the breathing cycle, in `[0, 4 * SCALE)`.
    pub breathing_phase: i64,
    /// Modulation depth, in `[0, SCALE]`.
    pub breathing_depth: i64,
}

impl StandingWave {
    /// The geometry is consistent: the spacing comes from the frequency and
    /// the nodes stand at `spacing / 2 + k * spacing` for consecutive `k`,
    /// filling `[0, SCALE)` completely.
    pub open spec fn wf(self) -> bool {
        &&& 1 <= self.frequency <= MAG
        &&& self.node_spacing == fx_div(SCALE as int, self.frequency as int)
        &&& 1 <= self.node_spacing <= MAG
        &&& 0 <= self.amplitude <= MAG
        &&& self.node_occupancy@.len() == self.node_positions@.len()
        &&& self.node_positions@.len() <= SCALE
        &&& forall|i: int| 0 <= i < self.node_positions@.len()
            ==> #[trigger] self.node_positions@[i]
                == self.node_spacing as int / 2 + i * self.node_spacing
        &&& forall|i: int| 0 <= i < self.node_positions@.len()
            ==> 0 <= #[trigger] self.node_positions@[i] < SCALE
        &&& (self.node_positions@.len() == 0 <==> self.node_spacing as int / 2 >= SCALE)
        &&& self.node_positions@.len() > 0
            ==> self.node_spacing as int / 2 + self.node_positions@.len() * self.node_spacing
                >= SCALE
        &&& 0 <= self.breathing_omega <= SCALE
        &&& 0 <= self.breathing_phase < 4 * SCALE
        &&& 0 <= self.breathing_depth <= SCALE
    }

    /// Create a standing wave for the given divisor: nodes at
    /// `spacing / 2`, `3 * spacing / 2`, ... while below the floor, with
    /// occupancy zeroed and breathing enabled.
    pub fn new(divisor: i64, amplitude: i64) -> (r: StandingWave)
        requires
            1 <= divisor <= MAG,
            0 <= amplitude <= MAG,
        ensures
            r.wf(),
            r.frequency == divisor,
            r.amplitude == amplitude,
            r.active,
            r.saturation_limit == 2,
            r.breathing_enabled,
            r.breathing_phase == 0,
            r.breathing_omega == BREATHING_OMEGA,
            r.breathing_depth == BREATHING_DEPTH,
            forall|i: int| 0 <= i < r.node_occupancy@.len() ==> #[trigger] r.node_occupancy@[i] == 0,
    {
        let node_spacing = fdiv(SCALE, divisor);
        proof {
            assert((SCALE as int) * (SCALE as int) / (divisor as int) >= 1) by (nonlinear_arith)
                requires 1 <= divisor as int <= (SCALE as int) * (SCALE as int);
        }
        let half = fhalf(node_spacing);
        let mut node_positions: Vec<i64> = Vec::new();
        let mut depth = half;
        proof {
            assert(node_positions@.len() * node_spacing == 0) by (nonlinear_arith)
                requires node_positions@.len() == 0;
        }
        while depth < SCALE
            invariant
                1 <= node_spacing <= MAG,
                half == node_spacing as int / 2,
                0 <= half,
                depth == half + node_positions@.len() * node_spacing,
                node_positions@.len() <= SCALE,
                forall|i: int| 0 <= i < node_positions@.len()
                    ==> #[trigger] node_positions@[i] == half + i * node_spacing,
                forall|i: int| 0 <= i < node_positions@.len()
                    ==> 0 <= #[trigger] node_positions@[i] < SCALE,
            decreases SCALE + node_spacing - depth,
        {
            let ghost n = node_positions@.len() as int;
            proof {
                assert(0 <= n * node_spacing && n <= n * node_spacing) by (nonlinear_arith)
                    requires 1 <= node_spacing as int, 0 <= n;
                assert((n + 1) * node_spacing == n * node_spacing + node_spacing)
                    by (nonlinear_arith);
            }
            node_positions.push(depth);
            depth = depth + node_spacing;
        }
        proof {
            let n = node_positions@.len() as int;
            assert(0 * node_spacing == 0) by (nonlinear_arith);
            if n == 0 {
                assert(n * node_spacing == 0) by (nonlinear_arith)
                    requires n == 0;
            } else {
                assert(node_positions@[0] == half + 0 * node_spacing);
            }
        }
        let mut node_occupancy: Vec<u32> = Vec::new();
        let mut k: usize = 0;
        while k < node_positions.len()
            invariant
                node_occupancy@.len() == k,
                k <= node_positions@.len(),
                forall|i: int| 0 <= i < k ==> #[trigger] node_occupancy@[i] == 0,
            decreases node_positions@.len() - k,
        {
            node_occupancy.push(0);
            k = k + 1;
        }
        StandingWave {
            id: fresh_id(),
            frequency: divisor,
            node_spacing,
            amplitude,
            node_positions,
            active: true,
            saturation_limit: 2,
            node_occupancy,
            breathing_enabled: true,
            breathing_omega: BREATHING_OMEGA,
            breathing_phase: 0,
            breathing_depth: BREATHING_DEPTH,
        }
    }

    /// Create a wave with a specific node saturation limit.
    pub fn new_with_saturation(divisor: i64, amplitude: i64, saturation_limit: u32) -> (r:
        StandingWave)
        requires
            1 <= divisor <= MAG,
            0 <= amplitude <= MAG,
        ensures
            r.wf(),
            r.frequency == divisor,
            r.amplitude == amplitude,
            r.active,
            r.saturation_limit == saturation_limit,
            r.breathing_enabled,
            forall|i: int| 0 <= i < r.node_occupancy@.len() ==> #[trigger] r.node_occupancy@[i] == 0,
    {
        let mut wave = Self::new(divisor, amplitude);
        wave.saturation_limit = saturation_limit;
        wave
    }

    /// Advance the breathing cycle by one tick, wrapping the phase at a
    /// full period.
    pub fn tick(&mut self)
        requires
            old(self).wf(),
        ensures
            final(self).wf(),
            final(self).breathing_phase == if !old(self).breathing_enabled {
                old(self).breathing_phase as int
            } else if old(self).breathing_phase + old(self).breathing_omega < 4 * SCALE {
                old(self).breathing_phase + old(self).breathing_omega
            } else {
                old(self).breathing_phase + old(self).breathing_omega - 4 * SCALE
            },
            *final(self) == (StandingWave { breathing_phase: final(self).breathing_phase, ..*old(self) }),
    {
        if self.breathing_enabled {
            let next = self.breathing_phase + self.breathing_omega;
            self.breathing_phase = if next < 4 * SCALE { next } else { next - 4 * SCALE };
        }
    }

    /// The current effective amplitude, with the breathing modulation
    /// applied.
    pub open spec fn spec_effective_amplitude(self) -> int {
        if self.breathing_enabled {
            fx_mul(
                self.amplitude as int,
                fx_add(
                    SCALE as int,
                    fx_mul(self.breathing_depth as int, osc(self.breathing_phase as int)),
                ),
            )
        } else {
            self.amplitude as int
        }
    }

    /// Current effective amplitude (with breathing modulation).
    pub fn effective_amplitude(&self) -> (r: i64)
        requires
            self.wf(),
        ensures
            r == self.spec_effective_amplitude(),
            fx_ok(r),
    {
        if self.breathing_enabled {
            let o = osc_at(self.breathing_phase);
            let factor = fadd(SCALE, fmul(self.breathing_depth, o));
            fmul(self.amplitude, factor)
        } else {
            self.amplitude
        }
    }

    /// The number of nodes.
    pub fn node_count(&self) -> (r: usize)
        ensures
            r == self.node_positions@.len(),
    {
        self.node_positions.len()
    }

    /// The index of the earliest node at least as close to `depth` as
    /// every other (the functional form of [`Self::nearest_at`]).
    pub open spec fn least_nearest(s: Seq<i64>, depth: int) -> int
        decreases s.len(),
    {
        if s.len() <= 1 {
            0
        } else {
            let t = Self::least_nearest(s.drop_last(), depth);
            if mag(depth - s.last()) < mag(depth - s[t]) {
                s.len() - 1
            } else {
                t
            }
        }
    }

    /// `least_nearest` is the unique index `nearest_at` describes.
    pub proof fn lemma_least_nearest(s: Seq<i64>, depth: int)
        requires
            s.len() > 0,
        ensures
            0 <= Self::least_nearest(s, depth) < s.len(),
            forall|j: int| 0 <= j < s.len() ==> mag(depth - s[Self::least_nearest(s, depth)])
                <= mag(depth - #[trigger] s[j]),
            forall|j: int| 0 <= j < Self::least_nearest(s, depth)
                ==> mag(depth - s[Self::least_nearest(s, depth)]) < mag(depth - #[trigger] s[j]),
        decreases s.len(),
    {
        if s.len() > 1 {
            Self::lemma_least_nearest(s.drop_last(), depth);
            let t = Self::least_nearest(s.drop_last(), depth);
            assert forall|j: int| 0 <= j < s.len() - 1 implies s.drop_last()[j] == s[j] by {}
        }
    }

    /// Node `i` is the nearest node to `depth`: no node is strictly closer,
    /// and no earlier node is as close.  At most one index satisfies this.
    pub open spec fn nearest_at(self, depth: int, i: int) -> bool {
        &&& 0 <= i < self.node_positions@.len()
        &&& forall|j: int| 0 <= j < self.node_positions@.len()
            ==> mag(depth - self.node_positions@[i]) <= mag(
                depth - #[trigger] self.node_positions@[j],
            )
        &&& forall|j: int| 0 <= j < i
            ==> mag(depth - self.node_positions@[i]) < mag(
                depth - #[trigger] self.node_positions@[j],
            )
    }

    /// The index of the nearest node to a given depth (the earliest, on a
    /// tie), or `None` if the wave has no nodes.
    pub fn nearest_node_index(&self, depth: i64) -> (r: Option<usize>)
        requires
            self.wf(),
            0 <= depth <= SCALE,
        ensures
            (r is Some) <==> self.node_positions@.len() > 0,
            r matches Some(i) ==> self.nearest_at(depth as int, i as int),
    {
        if self.node_positions.len() == 0 {
            return None;
        }
        let mut best: usize = 0;
        let mut best_dist = fabs(fsub(depth, self.node_positions[0]));
        let mut k: usize = 1;
        while k < self.node_positions.len()
            invariant
                self.wf(),
                0 <= depth <= SCALE,
                1 <= k <= self.node_positions@.len(),
                best < k,
                best_dist == mag(depth - self.node_positions@[best as int]),
                forall|j: int| 0 <= j < k
                    ==> best_dist <= mag(depth - #[trigger] self.node_positions@[j]),
                forall|j: int| 0 <= j < best
                    ==> best_dist < mag(depth - #[trigger] self.node_positions@[j]),
            decreases self.node_positions@.len() - k,
        {
            let d = fabs(fsub(depth, self.node_positions[k]));
            if d < best_dist {
                best = k;
                best_dist = d;
            }
            k = k + 1;
        }
        Some(best)
    }

    /// The depth-compensated attraction factor of node `i`: shallow nodes
    /// get a boost of up to sixty percent to overcome buoyancy.
    pub open spec fn spec_compensation(self, i: int) -> int {
        fx_add(SCALE as int, fx_mul(600_000, SCALE - self.node_positions@[i]))
    }

    /// The force the wave exerts at `depth` when node `i` is the nearest:
    /// attraction toward the node scaled by amplitude and compensation, or
    /// a tenfold repulsion away from it when the node is saturated.
    pub open spec fn spec_force_at(self, depth: int, i: int) -> int {
        let disp = self.node_positions@[i] - depth;
        let amp = self.spec_effective_amplitude();
        let comp = self.spec_compensation(i);
        if self.node_occupancy@[i] >= self.saturation_limit {
            fx_mul(fx_mul(fx_mul(-disp, amp), 10_000_000), comp)
        } else {
            fx_mul(fx_mul(disp, amp), comp)
        }
    }

    /// The force this wave exerts at `depth`: zero for an inactive or
    /// empty wave, otherwise the attraction or repulsion of the earliest
    /// nearest node.
    pub open spec fn spec_wave_force(self, depth: int) -> int {
        if !self.active || self.node_positions@.len() == 0 {
            0
        } else {
            self.spec_force_at(depth, Self::least_nearest(self.node_positions@, depth))
        }
    }

    /// The force on a bubble at a given depth: zero for an inactive or
    /// empty wave, otherwise the attraction or repulsion of the nearest
    /// node.
    pub fn force_at_depth(&self, depth: i64) -> (r: i64)
        requires
            self.wf(),
            0 <= depth <= SCALE,
        ensures
            r == self.spec_wave_force(depth as int),
            !self.active || self.node_positions@.len() == 0 ==> r == 0,
            self.active ==> forall|i: int| self.nearest_at(depth as int, i)
                ==> r == self.spec_force_at(depth as int, i),
            fx_ok(r),
    {
        if !self.active || self.node_positions.len() == 0 {
            return 0;
        }
        let nearest = self.nearest_node_index(depth);
        let idx = match nearest {
            Some(i) => i,
            None => { return 0; },
        };
        let node_pos = self.node_positions[idx];
        let disp = fsub(node_pos, depth);
        let amp = self.effective_amplitude();
        let comp = fadd(SCALE, fmul(600_000, fsub(SCALE, node_pos)));
        let occ = self.node_occupancy[idx];
        let r = if occ >= self.saturation_limit {
            fmul(fmul(fmul(fneg(disp), amp), 10_000_000), comp)
        } else {
            fmul(fmul(disp, amp), comp)
        };
        proof {
            assert forall|i: int| self.nearest_at(depth as int, i)
                implies r == self.spec_force_at(depth as int, i) by {
                assert(i == idx as int);
            }
            Self::lemma_least_nearest(self.node_positions@, depth as int);
            let ln = Self::least_nearest(self.node_positions@, depth as int);
            if ln < idx as int {
                assert(mag(depth - self.node_positions@[ln]) >= mag(
                    depth - self.node_positions@[idx as int],
                ));
                assert(mag(depth - self.node_positions@[ln]) < mag(
                    depth - self.node_positions@[idx as int],
                ));
            } else if ln > idx as int {
                assert(mag(depth - self.node_positions@[idx as int]) > mag(
                    depth - self.node_positions@[ln],
                ));
            }
            assert(ln == idx as int);
        }
        r
    }

    /// Reset all node occupancy counts to zero.
    pub fn reset_occupancy(&mut self)
        requires
            old(self).wf(),
        ensures
            final(self).wf(),
            *final(self) == (StandingWave {
                node_occupancy: final(self).node_occupancy,
                ..*old(self)
            }),
            final(self).node_occupancy@.len() == old(self).node_occupancy@.len(),
            forall|i: int| 0 <= i < final(self).node_occupancy@.len()
                ==> #[trigger] final(self).node_occupancy@[i] == 0,
    {
        let n = self.node_occupancy.len();
        let mut fresh: Vec<u32> = Vec::new();
        let mut k: usize = 0;
        while k < n
            invariant
                fresh@.len() == k,
                k <= n,
                forall|i: int| 0 <= i < k ==> #[trigger] fresh@[i] == 0,
            decreases n - k,
        {
            fresh.push(0);
            k = k + 1;
        }
        self.node_occupancy = fresh;
    }

    /// A bubble at depth `d` registers at node `i`: `i` is its nearest node
    /// and it lies within half a node spacing of it.
    pub open spec fn lands_at(self, d: i64, i: int) -> bool {
        &&& self.nearest_at(d as int, i)
        &&& mag(d - self.node_positions@[i]) < self.node_spacing as int / 2
    }

    /// How many of the given bubbles register at node `i`.
    pub open spec fn occ_count(self, depths: Seq<i64>, i: int) -> int
        decreases depths.len(),
    {
        if depths.len() == 0 {
            0
        } else {
            self.occ_count(depths.drop_last(), i) + if self.lands_at(depths.last(), i) {
                1int
            } else {
                0int
            }
        }
    }

    /// Recompute node occupancy from bubble positions: each bubble counts
    /// toward its nearest node if it lies within the proximity tolerance of
    /// half a node spacing.
    pub fn update_occupancy(&mut self, bubble_depths: &Vec<i64>)
        requires
            old(self).wf(),
            bubble_depths@.len() < 0x1_0000_0000,
            forall|k: int| 0 <= k < bubble_depths@.len()
                ==> 0 <= #[trigger] bubble_depths@[k] <= SCALE,
        ensures
            final(self).wf(),
            *final(self) == (StandingWave {
                node_occupancy: final(self).node_occupancy,
                ..*old(self)
            }),
            final(self).node_occupancy@.len() == old(self).node_occupancy@.len(),
            forall|i: int| 0 <= i < final(self).node_occupancy@.len()
                ==> #[trigger] final(self).node_occupancy@[i] == old(self).occ_count(
                    bubble_depths@,
                    i,
                ),
    {
        self.reset_occupancy();
        let tolerance = fhalf(self.node_spacing);
        let ghost w = *self;
        let mut k: usize = 0;
        while k < bubble_depths.len()
            invariant
                self.wf(),
                w == (StandingWave { node_occupancy: w.node_occupancy, ..*self }),
                w.node_occupancy@.len() == self.node_occupancy@.len(),
                tolerance == self.node_spacing as int / 2,
                k <= bubble_depths@.len(),
                bubble_depths@.len() < 0x1_0000_0000,
                forall|j: int| 0 <= j < bubble_depths@.len()
                    ==> 0 <= #[trigger] bubble_depths@[j] <= SCALE,
                forall|i: int| 0 <= i < self.node_occupancy@.len()
                    ==> #[trigger] self.node_occupancy@[i] == w.occ_count(
                        bubble_depths@.take(k as int),
                        i,
                    ),
            decreases bubble_depths@.len() - k,
        {
            let d = bubble_depths[k];
            proof {
                lemma_occ_count_bound(w, bubble_depths@.take(k as int));
            }
            let nearest = self.nearest_node_index(d);
            if let Some(i) = nearest {
                let dist = fabs(fsub(d, self.node_positions[i]));
                if dist < tolerance {
                    let c = self.node_occupancy[i];
                    self.node_occupancy[i] = c + 1;
                }
            }
            proof {
                assert(bubble_depths@.take(k + 1 as int).drop_last() =~= bubble_depths@.take(
                    k as int,
                ));
                assert(bubble_depths@.take(k + 1 as int).last() == bubble_depths@[k as int]);
                assert forall|i: int| 0 <= i < self.node_occupancy@.len()
                    implies #[trigger] self.node_occupancy@[i] == w.occ_count(
                        bubble_depths@.take(k + 1 as int),
                        i,
                    ) by {
                    if w.lands_at(bubble_depths@[k as int], i) {
                        assert(w.nearest_at(bubble_depths@[k as int] as int, i));
                    }
                }
            }
            k = k + 1;
        }
        proof {
            assert(bubble_depths@.take(bubble_depths@.len() as int) =~= bubble_depths@);
            lemma_occ_count_geometry(w, *old(self), bubble_depths@);
        }
    }

    /// Is a depth at some node, within the given tolerance?
    pub fn is_at_node(&self, depth: i64, tolerance: i64) -> (r: bool)
        requires
            self.wf(),
            0 <= depth <= SCALE,
            fx_ok(tolerance),
        ensures
            r == exists|i: int|
                0 <= i < self.node_positions@.len() && mag(
                    depth - #[trigger] self.node_positions@[i],
                ) < tolerance,
    {
        let mut k: usize = 0;
        while k < self.node_positions.len()
            invariant
                self.wf(),
                0 <= depth <= SCALE,
                fx_ok(tolerance),
                k <= self.node_positions@.len(),
                forall|i: int| 0 <= i < k
                    ==> mag(depth - #[trigger] self.node_positions@[i]) >= tolerance,
            decreases self.node_positions@.len() - k,
        {
            let d = fabs(fsub(depth, self.node_positions[k]));
            if d < tolerance {
                return true;
            }
            k = k + 1;
        }
        false
    }

    /// Is any node holding more bubbles than the saturation limit?
    pub fn has_overflow(&self) -> (r: bool)
        ensures
            r == exists|i: int|
                0 <= i < self.node_occupancy@.len() && #[trigger] self.node_occupancy@[i]
                    > self.saturation_limit,
    {
        let mut k: usize = 0;
        while k < self.node_occupancy.len()
            invariant
                k <= self.node_occupancy@.len(),
                forall|i: int| 0 <= i < k
                    ==> #[trigger] self.node_occupancy@[i] <= self.saturation_limit,
            decreases self.node_occupancy@.len() - k,
        {
            if self.node_occupancy[k] > self.saturation_limit {
                return true;
            }
            k = k + 1;
        }
        false
    }

    /// The total surplus above the saturation limit, over all nodes.
    pub open spec fn homeless_sum(occ: Seq<u32>, limit: int) -> int
        decreases occ.len(),
    {
        if occ.len() == 0 {
            0
        } else {
            Self::homeless_sum(occ.drop_last(), limit) + if occ.last() > limit {
                occ.last() - limit
            } else {
                0int
            }
        }
    }

    /// Count the bubbles that could not find a home: the total occupancy
    /// surplus above the saturation limit.
    pub fn homeless_count(&self) -> (r: u32)
        requires
            self.wf(),
            Self::homeless_sum(self.node_occupancy@, self.saturation_limit as int) <= u32::MAX,
        ensures
            r == Self::homeless_sum(self.node_occupancy@, self.saturation_limit as int),
    {
        let mut acc: u64 = 0;
        let mut k: usize = 0;
        while k < self.node_occupancy.len()
            invariant
                self.wf(),
                k <= self.node_occupancy@.len(),
                acc == Self::homeless_sum(
                    self.node_occupancy@.take(k as int),
                    self.saturation_limit as int,
                ),
                acc <= k * 0x1_0000_0000,
            decreases self.node_occupancy@.len() - k,
        {
            let occ = self.node_occupancy[k];
            proof {
                assert(self.node_occupancy@.take(k + 1 as int).drop_last()
                    =~= self.node_occupancy@.take(k as int));
                assert((k + 1) * 0x1_0000_0000 == k * 0x1_0000_0000 + 0x1_0000_0000)
                    by (nonlinear_arith);
                assert(k * 0x1_0000_0000 <= (SCALE as int) * 0x1_0000_0000) by (nonlinear_arith)
                    requires 0 <= k <= SCALE as int;
            }
            if occ > self.saturation_limit {
                acc = acc + ((occ - self.saturation_limit) as u64);
            }
            k = k + 1;
        }
        proof {
            assert(self.node_occupancy@.take(self.node_occupancy@.len() as int)
                =~= self.node_occupancy@);
        }
        acc as u32
    }
}

/// A division problem encoded as fluid dynamics: the divisor becomes a
/// standing wave's node spacing, the dividend a count of injected bubbles.
pub struct DivisionProblem {
    /// The dividend: how many bubbles to inject; positive.
    pub dividend: i64,
    /// The divisor: determines node spacing; positive.
    pub divisor: i64,
    /// Unique identifier for this problem.
    pub id: u128,
}

impl DivisionProblem {
    /// Both terms are positive and representable.
    pub open spec fn wf(self) -> bool {
        &&& 1 <= self.dividend <= MAG
        &&& 1 <= self.divisor <= MAG
    }

    /// Record a division problem.
    pub fn new(dividend: i64, divisor: i64) -> (r: DivisionProblem)
        requires
            1 <= dividend <= MAG,
            1 <= divisor <= MAG,
        ensures
            r.dividend == dividend,
            r.divisor == divisor,
            r.wf(),
    {
        DivisionProblem { dividend, divisor, id: fresh_id() }
    }
}

/// The exact whole quotient of two fixed-point values, as a fixed-point
/// whole number (saturated).
pub fn whole_quotient(dividend: i64, divisor: i64) -> (r: i64)
    requires
        1 <= dividend <= MAG,
        1 <= divisor <= MAG,
    ensures
        r == crate::fixed::sat((dividend as int / divisor as int) * SCALE),
        0 <= r <= MAG,
{
    let q = (dividend as u64) / (divisor as u64);
    proof {
        assert(q * (divisor as int) <= dividend) by (nonlinear_arith)
            requires q == dividend as int / divisor as int, 1 <= divisor as int, 0 <= dividend;
        assert(q <= dividend) by (nonlinear_arith)
            requires q * (divisor as int) <= dividend as int, 1 <= divisor as int, 0 <= q;
        assert(q * SCALE <= (MAG as int) * (SCALE as int)) by (nonlinear_arith)
            requires 0 <= q <= MAG as int;
    }
    let scaled = q * (SCALE as u64);
    if scaled > MAG as u64 {
        MAG
    } else {
        scaled as i64
    }
}

/// The exact remainder of two fixed-point values.
pub fn whole_remainder(dividend: i64, divisor: i64) -> (r: i64)
    requires
        1 <= dividend <= MAG,
        1 <= divisor <= MAG,
    ensures
        r == dividend as int % divisor as int,
        0 <= r < divisor,
{
    let m = (dividend as u64) % (divisor as u64);
    m as i64
}

/// The saturating sum of a sequence of fixed-point samples, accumulated in
/// order.
pub open spec fn sum_sat(s: Seq<i64>) -> int
    decreases s.len(),
{
    if s.len() == 0 {
        0
    } else {
        fx_add(sum_sat(s.drop_last()), s.last() as int)
    }
}

/// The saturating sum of squared deviations from `mean`, accumulated in
/// order.
pub open spec fn sqdev_sum_sat(s: Seq<i64>, mean: int) -> int
    decreases s.len(),
{
    if s.len() == 0 {
        0
    } else {
        fx_add(
            sqdev_sum_sat(s.drop_last(), mean),
            fx_mul(fx_sub(s.last() as int, mean), fx_sub(s.last() as int, mean)),
        )
    }
}

/// A fixed-point square is within `[0, MAG]`.
pub proof fn lemma_fx_sq_nonneg(x: int)
    ensures
        0 <= fx_mul(x, x) <= MAG,
{
    assert(x * x >= 0) by (nonlinear_arith);
    assert(x * x / (SCALE as int) >= 0) by (nonlinear_arith)
        requires x * x >= 0;
}

/// A sum of squared deviations is within `[0, MAG]`.
pub proof fn lemma_sqdev_sum_ok(s: Seq<i64>, mean: int)
    ensures
        0 <= sqdev_sum_sat(s, mean) <= MAG,
    decreases s.len(),
{
    if s.len() > 0 {
        lemma_sqdev_sum_ok(s.drop_last(), mean);
        lemma_fx_sq_nonneg(fx_sub(s.last() as int, mean));
    }
}

/// The mean of a sample window (zero when empty).
pub open spec fn mean_of(s: Seq<i64>) -> int {
    if s.len() == 0 {
        0
    } else {
        div_tz(sum_sat(s), s.len() as int)
    }
}

/// The standard deviation of a sample window in fixed point (zero when
/// empty): the square root of the mean squared deviation.
pub open spec fn sigma_of(s: Seq<i64>) -> int {
    if s.len() == 0 {
        0
    } else {
        sqrt_tz(div_tz(sqdev_sum_sat(s, mean_of(s)), s.len() as int) * (SCALE as int))
    }
}

/// The deviation metric is non-negative and representable.
pub proof fn lemma_sigma_ok(s: Seq<i64>)
    ensures
        0 <= sigma_of(s) <= MAG,
{
    if s.len() > 0 {
        lemma_sqdev_sum_ok(s, mean_of(s));
        let v = div_tz(sqdev_sum_sat(s, mean_of(s)), s.len() as int);
        assert(0 <= v <= MAG) by (nonlinear_arith)
            requires
                v == sqdev_sum_sat(s, mean_of(s)) / (s.len() as int),
                0 <= sqdev_sum_sat(s, mean_of(s)) <= MAG,
                1 <= s.len() as int;
        lemma_sqrt_tz(v * (SCALE as int));
        let g = sqrt_tz(v * (SCALE as int));
        assert(0 <= v * (SCALE as int) <= (MAG as int) * (SCALE as int)) by (nonlinear_arith)
            requires 0 <= v <= MAG;
        assert(g <= MAG) by (nonlinear_arith)
            requires
                0 <= g,
                g * g <= (MAG as int) * (SCALE as int);
    }
}

/// The result of a division computation read off the fluid: the exact
/// quotient and remainder beside the physically measured diagnostics.
pub struct DivisionResult {
    /// The original dividend.
    pub dividend: i64,
    /// The original divisor.
    pub divisor: i64,
    /// Was the division clean (no remainder)?
    pub is_divisible: bool,
    /// The whole quotient, as a fixed-point whole number.
    pub quotient: i64,
    /// The exact remainder.
    pub remainder: i64,
    /// Reynolds number at settlement.
    pub reynolds_number: i64,
    /// Total turbulence energy accumulated over the run.
    pub turbulence_energy: i64,
    /// How many ticks until settlement.
    pub ticks_to_settle: u64,
    /// Distribution of bubbles across nodes.
    pub node_occupancy: Vec<u32>,
    /// Salinity boost used for the run.
    pub salinity_boost: i64,
    /// Velocity standard deviation over the measurement window.
    pub velocity_sigma: i64,
    /// Mean velocity over the measurement window.
    pub velocity_mean: i64,
    /// Peak jitter observed while settling.
    pub peak_jitter: i64,
}

/// Tracks the state of an active division experiment.
pub struct DivisionExperiment {
    /// The problem being solved.
    pub problem: DivisionProblem,
    /// The standing wave for this experiment.
    pub wave: StandingWave,
    /// Identifiers of the bubbles injected for this experiment.
    pub bubble_ids: Vec<u128>,
    /// Has the experiment settled?
    pub settled: bool,
    /// Tick count when the experiment started.
    pub start_tick: u64,
    /// Maximum ticks before forced settlement.
    pub max_ticks: u64,
    /// Accumulated turbulence over the experiment; non-negative.
    pub accumulated_turbulence: i64,
    /// Peak Reynolds number observed; non-negative.
    pub peak_reynolds: i64,
    /// The salinity before the experiment, restored on completion.
    pub original_salinity: i64,
    /// Salinity boost applied for the duration.
    pub salinity_boost: i64,
    /// Rolling window of average-speed samples for jitter analysis.
    pub velocity_history: Vec<i64>,
    /// Window size for the jitter measurement.
    pub jitter_window: usize,
    /// Peak jitter observed during the experiment; non-negative.
    pub peak_jitter: i64,
    /// Running sum of all recorded samples (saturating).
    pub velocity_sum: i64,
    /// Running sum of squared samples (saturating).
    pub velocity_sum_sq: i64,
    /// How many samples were recorded (saturating).
    pub velocity_samples: u32,
}

impl DivisionExperiment {
    /// The experiment's numbers are inside their documented bands.
    pub open spec fn wf(self) -> bool {
        &&& self.problem.wf()
        &&& self.wave.wf()
        &&& self.bubble_ids@.len() <= SCALE
        &&& 0 <= self.accumulated_turbulence <= MAG
        &&& 0 <= self.peak_reynolds <= MAG
        &&& 0 <= self.original_salinity <= MAG
        &&& 0 <= self.salinity_boost <= MAG
        &&& 1 <= self.jitter_window <= 1_000
        &&& self.velocity_history@.len() <= self.jitter_window
        &&& forall|i: int| 0 <= i < self.velocity_history@.len()
            ==> fx_ok(#[trigger] self.velocity_history@[i])
        &&& fx_ok(self.velocity_sum)
        &&& fx_ok(self.velocity_sum_sq)
        &&& 0 <= self.peak_jitter <= MAG
        &&& 1 <= self.max_ticks
    }

    /// Start tracking a division experiment: a strong wave for the
    /// problem's divisor, a 300-tick timeout, a 50-sample jitter window,
    /// and all statistics zeroed.
    pub fn new(problem: DivisionProblem, start_tick: u64) -> (r: DivisionExperiment)
        requires
            problem.wf(),
        ensures
            r.problem == problem,
            r.wave.wf(),
            r.wave.frequency == problem.divisor,
            r.bubble_ids@.len() == 0,
            !r.settled,
            r.start_tick == start_tick,
            r.max_ticks == 300,
            r.accumulated_turbulence == 0,
            r.peak_reynolds == 0,
            r.original_salinity == 0,
            r.salinity_boost == 0,
            r.velocity_history@.len() == 0,
            r.jitter_window == 50,
            r.peak_jitter == 0,
            r.wf(),
    {
        let wave = StandingWave::new(problem.divisor, 5_000_000);
        DivisionExperiment {
            problem,
            wave,
            bubble_ids: Vec::new(),
            settled: false,
            start_tick,
            max_ticks: 300,
            accumulated_turbulence: 0,
            peak_reynolds: 0,
            original_salinity: 0,
            salinity_boost: 0,
            velocity_history: Vec::new(),
            jitter_window: 50,
            peak_jitter: 0,
            velocity_sum: 0,
            velocity_sum_sq: 0,
            velocity_samples: 0,
        }
    }

    /// Mean and standard deviation of the current sample window, in fixed
    /// point; `(0, 0)` when no samples were recorded.
    pub fn calculate_velocity_sigma(&self) -> (r: (i64, i64))
        requires
            self.wf(),
        ensures
            r.0 == mean_of(self.velocity_history@),
            r.1 == sigma_of(self.velocity_history@),
            fx_ok(r.0),
            0 <= r.1 <= MAG,
    {
        let h = &self.velocity_history;
        if h.len() == 0 {
            return (0, 0);
        }
        let n = h.len() as i64;
        let mut sum: i64 = 0;
        let mut k: usize = 0;
        while k < h.len()
            invariant
                self.wf(),
                h == &self.velocity_history,
                k <= h@.len(),
                sum == sum_sat(h@.take(k as int)),
                fx_ok(sum),
            decreases h@.len() - k,
        {
            proof {
                assert(h@.take(k + 1 as int).drop_last() =~= h@.take(k as int));
            }
            sum = fadd(sum, h[k]);
            k = k + 1;
        }
        proof {
            assert(h@.take(h@.len() as int) =~= h@);
        }
        let mean = fdivi(sum, n);
        let mut acc: i64 = 0;
        let mut k2: usize = 0;
        while k2 < h.len()
            invariant
                self.wf(),
                h == &self.velocity_history,
                k2 <= h@.len(),
                fx_ok(mean),
                acc == sqdev_sum_sat(h@.take(k2 as int), mean as int),
                0 <= acc <= MAG,
            decreases h@.len() - k2,
        {
            proof {
                assert(h@.take(k2 + 1 as int).drop_last() =~= h@.take(k2 as int));
                lemma_fx_sq_nonneg(fx_sub(h@[k2 as int] as int, mean as int));
            }
            let dev = fsub(h[k2], mean);
            acc = fadd(acc, fmul(dev, dev));
            k2 = k2 + 1;
        }
        proof {
            assert(h@.take(h@.len() as int) =~= h@);
        }
        let variance = fdivi(acc, n);
        proof {
            assert(variance >= 0) by (nonlinear_arith)
                requires variance == acc as int / (n as int), acc >= 0, n as int >= 1;
        }
        let sigma = fsqrt(variance);
        proof {
            lemma_sigma_ok(h@);
        }
        (mean, sigma)
    }

    /// Exactly what recording one average-speed sample does: the window
    /// rolls at its bound, the running sums and the sample counter
    /// advance, and from ten samples on the peak jitter tracks the
    /// window's deviation; nothing else changes.
    pub open spec fn recorded_velocity(pre: DivisionExperiment, post: DivisionExperiment, avg: i64)
        -> bool {
        &&& post.velocity_history@ == (if pre.velocity_history@.len() >= pre.jitter_window {
            pre.velocity_history@.subrange(1, pre.velocity_history@.len() as int)
        } else {
            pre.velocity_history@
        }).push(avg)
        &&& post.velocity_sum == fx_add(pre.velocity_sum as int, avg as int)
        &&& post.velocity_sum_sq == fx_add(
            pre.velocity_sum_sq as int,
            fx_mul(avg as int, avg as int),
        )
        &&& post.velocity_samples == (if pre.velocity_samples < u32::MAX {
            pre.velocity_samples + 1
        } else {
            pre.velocity_samples as int
        })
        &&& post.peak_jitter == (if post.velocity_history@.len() >= 10 && sigma_of(
            post.velocity_history@,
        ) > pre.peak_jitter {
            sigma_of(post.velocity_history@)
        } else {
            pre.peak_jitter as int
        })
        &&& post == (DivisionExperiment {
            velocity_history: post.velocity_history,
            velocity_sum: post.velocity_sum,
            velocity_sum_sq: post.velocity_sum_sq,
            velocity_samples: post.velocity_samples,
            peak_jitter: post.peak_jitter,
            ..pre
        })
    }

    /// Record one average-speed sample: roll the window, update the running
    /// sums, and track the peak window deviation once ten samples exist.
    pub fn record_velocity(&mut self, avg_velocity: i64)
        requires
            old(self).wf(),
            fx_ok(avg_velocity),
        ensures
            final(self).wf(),
            Self::recorded_velocity(*old(self), *final(self), avg_velocity),
    {
        if self.velocity_history.len() >= self.jitter_window {
            let _dropped = self.velocity_history.remove(0);
            proof {
                assert(self.velocity_history@ =~= old(self).velocity_history@.subrange(
                    1,
                    old(self).velocity_history@.len() as int,
                ));
            }
        }
        self.velocity_history.push(avg_velocity);
        self.velocity_sum = fadd(self.velocity_sum, avg_velocity);
        self.velocity_sum_sq = fadd(self.velocity_sum_sq, fmul(avg_velocity, avg_velocity));
        if self.velocity_samples < u32::MAX {
            self.velocity_samples = self.velocity_samples + 1;
        }
        if self.velocity_history.len() >= 10 {
            let stats = self.calculate_velocity_sigma();
            if stats.1 > self.peak_jitter {
                self.peak_jitter = stats.1;
            }
        }
    }

    /// Has the experiment run out of time?
    pub fn is_timed_out(&self, current_tick: u64) -> (r: bool)
        requires
            current_tick >= self.start_tick,
        ensures
            r == (current_tick - self.start_tick >= self.max_ticks),
    {
        current_tick - self.start_tick >= self.max_ticks
    }

    /// The remainder as estimated from accumulated turbulence alone: a
    /// tenth of the accumulated energy, rounded to the nearest whole unit
    /// and capped at one less than the divisor.
    pub open spec fn spec_remainder_estimate(self) -> int {
        let t = div_tz(self.accumulated_turbulence as int, 10);
        let rounded = ((t + 500_000) / (SCALE as int)) * (SCALE as int);
        let cap = fx_sub(self.problem.divisor as int, SCALE as int);
        if rounded <= cap { rounded } else { cap }
    }

    /// Estimate the remainder from accumulated turbulence, cross-checked
    /// against the divisor bound.
    pub fn calculate_remainder(&self) -> (r: i64)
        requires
            self.wf(),
        ensures
            r == self.spec_remainder_estimate(),
    {
        let t = fdivi(self.accumulated_turbulence, 10);
        let rounded_units = ((t + 500_000) as u64) / (SCALE as u64);
        let rounded = (rounded_units as i64) * SCALE;
        proof {
            assert(rounded_units * (SCALE as int) <= t + 500_000) by (nonlinear_arith)
                requires
                    rounded_units == (t + 500_000) as int / (SCALE as int),
                    0 <= t + 500_000;
            assert(rounded_units <= t + 500_000) by (nonlinear_arith)
                requires
                    rounded_units * (SCALE as int) <= t + 500_000,
                    1 <= SCALE as int,
                    0 <= rounded_units;
        }
        let cap = fsub(self.problem.divisor, SCALE);
        fmin(rounded, cap)
    }
}

/// Occupancy counts never exceed the number of bubbles counted.
proof fn lemma_occ_count_bound(w: StandingWave, depths: Seq<i64>)
    ensures
        forall|i: int| 0 <= #[trigger] w.occ_count(depths, i) <= depths.len(),
    decreases depths.len(),
{
    if depths.len() > 0 {
        lemma_occ_count_bound(w, depths.drop_last());
        assert forall|i: int| 0 <= #[trigger] w.occ_count(depths, i) <= depths.len() by {
            assert(0 <= w.occ_count(depths.drop_last(), i) <= depths.drop_last().len());
        }
    }
}

/// Occupancy counting reads only the wave's geometry, never its occupancy,
/// so two waves that differ only in occupancy count alike.
proof fn lemma_occ_count_geometry(a: StandingWave, b: StandingWave, depths: Seq<i64>)
    requires
        a.node_positions == b.node_positions,
        a.node_spacing == b.node_spacing,
    ensures
        forall|i: int| #[trigger] a.occ_count(depths, i) == b.occ_count(depths, i),
    decreases depths.len(),
{
    if depths.len() > 0 {
        lemma_occ_count_geometry(a, b, depths.drop_last());
        assert forall|i: int| #[trigger] a.occ_count(depths, i) == b.occ_count(depths, i) by {
            assert(a.occ_count(depths.drop_last(), i) == b.occ_count(depths.drop_last(), i));
            assert(a.lands_at(depths.last(), i) == b.lands_at(depths.last(), i));
        }
    }
}

/// A standing wave built for an exact whole-number divisor `d` (up to 20)
/// has exactly `d` nodes.
pub proof fn lemma_whole_divisor_node_count(w: StandingWave, d: int)
    requires
        w.wf(),
        1 <= d <= 20,
        w.frequency == d * SCALE,
    ensures
        w.node_positions@.len() == d,
{
    let s = w.node_spacing as int;
    let half = s / 2;
    let n = w.node_positions@.len() as int;
    assert(s == (SCALE as int) * (SCALE as int) / (d * SCALE)) by {
        assert(0 <= (SCALE as int) * (SCALE as int) / (d * (SCALE as int)) <= MAG)
            by (nonlinear_arith)
            requires 1 <= d <= 20;
        assert(fx_div(SCALE as int, (d * (SCALE as int))) == (SCALE as int) * (SCALE as int) / (d
            * (SCALE as int)));
    }
    assert(d * s <= SCALE < d * s + d) by (nonlinear_arith)
        requires 1 <= d <= 20, s == (SCALE as int) * (SCALE as int) / (d * SCALE);
    assert(50_000 <= s <= SCALE) by (nonlinear_arith)
        requires 1 <= d <= 20, d * s <= SCALE < d * s + d;
    // Fewer than d nodes would leave the band below SCALE uncovered.
    assert(half + (d - 1) * s < SCALE) by (nonlinear_arith)
        requires 2 * half <= s, d * s <= SCALE as int, 1 <= s, 1 <= d;
    // More than d nodes would place one at or beyond SCALE.
    assert(half + d * s >= SCALE) by (nonlinear_arith)
        requires 2 * half >= s - 1, SCALE < d * s + d, d <= 50_000 <= s, half >= 0;
    if n < d {
        assert(half + n * s <= half + (d - 1) * s) by (nonlinear_arith)
            requires n <= d - 1, 1 <= s, 0 <= half;
        assert(false);
    }
    if n > d {
        assert(w.node_positions@[d] == half + d * s);
        assert(w.node_positions@[d] < SCALE);
        assert(false);
    }
}

} // verus!
