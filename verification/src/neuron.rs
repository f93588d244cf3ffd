//! The leaky integrate-and-fire (LIF) spiking unit: the atomic numeric
//! state machine of the hierarchy, with its spike-timing-dependent
//! plasticity rule.

use vstd::prelude::*;
use crate::config::SystemConfig;
use crate::fixed::{sat64, sat_add, sat_sub, scaled, mul_weight, SCALE};
use crate::trusted::{fresh_id, now_millis, random_initial_weight};

verus! {

/// An ephemeral message produced when a unit fires, consumed within the
/// same cycle. The timestamp is in milliseconds since the Unix epoch; the
/// value is fixed-point.
pub struct SpikeEvent {
    pub presynaptic_neuron_id: u64,
    pub timestamp: i64,
    pub value: i64,
}

/// A leaky integrate-and-fire neuron. Potentials, rates and weights are
/// fixed-point `i64` values scaled by [`SCALE`]; outgoing connections map
/// target identifiers to synaptic weights in `[0, SCALE]`.
pub struct LIFNeuron {
    pub id: u64,
    pub membrane_potential: i64,
    pub threshold: i64,
    pub leak_rate: i64,
    pub reset_potential: i64,
    pub refractory_countdown: u32,
    pub refractory_cycles: u32,
    pub connections: Vec<(u64, i64)>,
    pub last_spike_time: Option<i64>,
    pub learning_rate: i64,
}

/// Some connection in the sequence targets `id`.
pub open spec fn has_conn(s: Seq<(u64, i64)>, id: u64) -> bool {
    exists|i: int| 0 <= i < s.len() && (#[trigger] s[i]).0 == id
}

/// Connection targets are pairwise distinct and every weight lies in
/// `[0, SCALE]`.
pub open spec fn conns_wf(s: Seq<(u64, i64)>) -> bool {
    &&& forall|i: int, j: int|
        0 <= i < j < s.len() ==> (#[trigger] s[i]).0 != (#[trigger] s[j]).0
    &&& forall|i: int| 0 <= i < s.len() ==> 0 <= (#[trigger] s[i]).1 <= SCALE
}

/// Clamping of a fixed-point value into `[0, SCALE]`, the valid band for
/// synaptic weights.
pub open spec fn clamp01(x: int) -> int {
    if x < 0 {
        0
    } else if x > SCALE {
        SCALE as int
    } else {
        x
    }
}

/// The weight adjustment the plasticity rule applies for a spike that
/// arrived `dt` milliseconds before the post-synaptic fire: strengthening
/// within the causal window `0 < dt < 20`, weakening within the
/// anti-causal window `-20 < dt < 0`, nothing outside.
pub open spec fn stdp_delta(dt: int, lr: int) -> int
    recommends
        lr >= 0,
{
    if 0 < dt && dt < 20 {
        lr / dt
    } else if -20 < dt && dt < 0 {
        -(lr / -dt)
    } else {
        0
    }
}

/// One plasticity step: where the event's presynaptic unit is a known
/// connection target, its weight moves by `stdp_delta` and is re-clamped
/// into `[0, SCALE]`; other connections are untouched.
pub open spec fn stdp_step(
    s: Seq<(u64, i64)>,
    e: SpikeEvent,
    post_time: int,
    lr: int,
) -> Seq<(u64, i64)> {
    s.map_values(
        |c: (u64, i64)|
            if c.0 == e.presynaptic_neuron_id {
                (c.0, clamp01(c.1 + stdp_delta(post_time - e.timestamp, lr)) as i64)
            } else {
                c
            },
    )
}

/// The plasticity rule folded over a batch of recent events, front first.
pub open spec fn stdp_fold(
    s: Seq<(u64, i64)>,
    events: Seq<SpikeEvent>,
    post_time: int,
    lr: int,
) -> Seq<(u64, i64)>
    decreases events.len(),
{
    if events.len() == 0 {
        s
    } else {
        stdp_fold(stdp_step(s, events[0], post_time, lr), events.drop_first(), post_time, lr)
    }
}

proof fn lemma_stdp_step_index(s: Seq<(u64, i64)>, e: SpikeEvent, post_time: int, lr: int, i: int)
    requires
        0 <= i < s.len(),
    ensures
        stdp_step(s, e, post_time, lr).len() == s.len(),
        stdp_step(s, e, post_time, lr)[i] == if s[i].0 == e.presynaptic_neuron_id {
            (s[i].0, clamp01(s[i].1 + stdp_delta(post_time - e.timestamp, lr)) as i64)
        } else {
            s[i]
        },
{
}

/// Connection weights stay in `[0, SCALE]` and targets stay distinct under
/// one plasticity step.
pub proof fn lemma_stdp_step_wf(s: Seq<(u64, i64)>, e: SpikeEvent, post_time: int, lr: int)
    requires
        conns_wf(s),
    ensures
        conns_wf(stdp_step(s, e, post_time, lr)),
        stdp_step(s, e, post_time, lr).len() == s.len(),
        forall|i: int|
            0 <= i < s.len() ==> (#[trigger] stdp_step(s, e, post_time, lr)[i]).0 == s[i].0,
{
}

/// Law: connection weights remain within `[0, SCALE]` — that is, within
/// `[0, 1]` as real numbers — after arbitrarily many plasticity steps, and
/// the set of connection targets never changes.
pub proof fn lemma_stdp_fold_wf(
    s: Seq<(u64, i64)>,
    events: Seq<SpikeEvent>,
    post_time: int,
    lr: int,
)
    requires
        conns_wf(s),
    ensures
        conns_wf(stdp_fold(s, events, post_time, lr)),
        stdp_fold(s, events, post_time, lr).len() == s.len(),
        forall|i: int|
            0 <= i < s.len() ==> (#[trigger] stdp_fold(s, events, post_time, lr)[i]).0 == s[i].0,
    decreases events.len(),
{
    if events.len() > 0 {
        lemma_stdp_step_wf(s, events[0], post_time, lr);
        lemma_stdp_fold_wf(stdp_step(s, events[0], post_time, lr), events.drop_first(), post_time, lr);
    }
}

/// The membrane potential `p` after one leak of `leak`, clamped from below
/// at `reset`.
pub open spec fn leaked_of(p: int, leak: int, reset: int) -> int {
    let q = sat64(p - leak);
    if q < reset {
        reset
    } else {
        q
    }
}

/// The deterministic part of one `update_and_check_fire` cycle on the pair
/// (membrane potential, refractory countdown), with the unit's parameters
/// given explicitly.
pub open spec fn step_pc(
    leak: int,
    reset: int,
    thr: int,
    cycles: int,
    p: int,
    cd: int,
) -> (int, int) {
    if cd > 0 {
        (p, cd - 1)
    } else {
        let q = leaked_of(p, leak, reset);
        if q >= thr {
            (reset, cycles)
        } else {
            (q, 0)
        }
    }
}

/// The pair (membrane potential, refractory countdown) after `k` cycles
/// with no input.
pub open spec fn run_pc(
    leak: int,
    reset: int,
    thr: int,
    cycles: int,
    p: int,
    cd: int,
    k: nat,
) -> (int, int)
    decreases k,
{
    if k == 0 {
        (p, cd)
    } else {
        let s = step_pc(leak, reset, thr, cycles, p, cd);
        run_pc(leak, reset, thr, cycles, s.0, s.1, (k - 1) as nat)
    }
}

/// Law: once the membrane potential sits at the reset potential it stays
/// there under input-free cycles, for any non-negative leak — the potential
/// has converged and stops decreasing further.
pub proof fn lemma_reset_is_stable(
    leak: int,
    reset: int,
    thr: int,
    cycles: int,
    cd: int,
    k: nat,
)
    requires
        leak >= 0,
        cd >= 0,
        cycles >= 0,
        i64::MIN <= reset <= i64::MAX,
    ensures
        run_pc(leak, reset, thr, cycles, reset, cd, k).0 == reset,
        run_pc(leak, reset, thr, cycles, reset, cd, k).1 >= 0,
    decreases k,
{
    if k > 0 {
        let s = step_pc(leak, reset, thr, cycles, reset, cd);
        assert(s.0 == reset);
        lemma_reset_is_stable(leak, reset, thr, cycles, s.1, (k - 1) as nat);
    }
}

/// Number of input-free cycles after which the membrane potential is sure
/// to have reached the reset potential: the refractory countdown, then one
/// cycle per fixed-point step of distance (the leak removes at least one
/// such step per cycle), then one cycle more.
pub open spec fn convergence_bound(p: int, reset: int, cd: int) -> int {
    cd + (if p > reset {
        p - reset
    } else {
        0
    }) + 1
}

/// Law: with any positive leak, repeated input-free cycles drive the
/// membrane potential down to the reset potential — and by
/// `lemma_reset_is_stable` it then stays there, decreasing no further.
pub proof fn lemma_step_convergence(
    leak: int,
    reset: int,
    thr: int,
    cycles: int,
    p: int,
    cd: int,
    k: nat,
)
    requires
        leak >= 1,
        cycles >= 0,
        cd >= 0,
        i64::MIN <= reset <= i64::MAX,
        i64::MIN <= p <= i64::MAX,
        k >= convergence_bound(p, reset, cd),
    ensures
        run_pc(leak, reset, thr, cycles, p, cd, k).0 == reset,
    decreases k,
{
    let s = step_pc(leak, reset, thr, cycles, p, cd);
    if cd > 0 {
        lemma_step_convergence(leak, reset, thr, cycles, p, cd - 1, (k - 1) as nat);
    } else if s.0 == reset {
        lemma_reset_is_stable(leak, reset, thr, cycles, s.1, (k - 1) as nat);
    } else {
        assert(s.0 == leaked_of(p, leak, reset));
        assert(s.0 <= p - 1);
        assert(s.1 == 0);
        lemma_step_convergence(leak, reset, thr, cycles, s.0, 0, (k - 1) as nat);
    }
}

/// Law: a unit that just fired carries a refractory countdown of `c`, and
/// for exactly `c` subsequent input-free cycles the countdown stays
/// positive (so `process_spike_event` ignores every spike, as its contract
/// states) while the membrane potential does not move; after the `c`-th
/// cycle the countdown is zero and spikes are accepted again.
pub proof fn lemma_refractory_window(
    leak: int,
    reset: int,
    thr: int,
    cycles: int,
    p: int,
    c: int,
    j: nat,
)
    requires
        c >= 0,
        j <= c,
    ensures
        run_pc(leak, reset, thr, cycles, p, c, j).1 == c - j,
        run_pc(leak, reset, thr, cycles, p, c, j).0 == p,
    decreases j,
{
    if j > 0 {
        assert(step_pc(leak, reset, thr, cycles, p, c) == (p, c - 1));
        lemma_refractory_window(leak, reset, thr, cycles, p, c - 1, (j - 1) as nat);
    }
}

impl LIFNeuron {
    /// Structural invariant: distinct connection targets, weights in
    /// `[0, SCALE]`, non-negative learning rate.
    pub open spec fn wf(&self) -> bool {
        &&& conns_wf(self.connections@)
        &&& self.learning_rate >= 0
    }

    /// The membrane potential after the leak is applied and clamped from
    /// below at the reset potential.
    pub open spec fn leaked(&self) -> int {
        leaked_of(self.membrane_potential as int, self.leak_rate as int, self.reset_potential as int)
    }

    /// Creates a new neuron with parameters from the configuration: the
    /// potential starts at the reset potential, no refractory countdown, no
    /// connections, no recorded spike.
    pub fn new(config: &SystemConfig) -> (r: Self)
        requires
            config.wf(),
        ensures
            r.wf(),
            r.membrane_potential == config.lif_neuron_reset_potential,
            r.threshold == config.lif_neuron_threshold,
            r.leak_rate == config.lif_neuron_leak_rate,
            r.reset_potential == config.lif_neuron_reset_potential,
            r.refractory_countdown == 0,
            r.refractory_cycles == config.lif_neuron_refractory_cycles,
            r.connections@.len() == 0,
            r.last_spike_time is None,
            r.learning_rate == config.default_learning_rate,
    {
        LIFNeuron {
            id: fresh_id(),
            membrane_potential: config.lif_neuron_reset_potential,
            threshold: config.lif_neuron_threshold,
            leak_rate: config.lif_neuron_leak_rate,
            reset_potential: config.lif_neuron_reset_potential,
            refractory_countdown: 0,
            refractory_cycles: config.lif_neuron_refractory_cycles,
            connections: Vec::new(),
            last_spike_time: None,
            learning_rate: config.default_learning_rate,
        }
    }

    /// Adds an external stimulus to the membrane potential, with no bounds
    /// check and regardless of the refractory state.
    pub fn apply_input(&mut self, delta: i64)
        ensures
            *final(self) == (LIFNeuron {
                membrane_potential: sat64(old(self).membrane_potential + delta) as i64,
                ..*old(self)
            }),
    {
        self.membrane_potential = sat_add(self.membrane_potential, delta);
    }

    /// Forms a synaptic connection to the target with a small random
    /// initial weight in `[0.01, 0.1)`; an existing connection to the same
    /// target is overwritten.
    pub fn form_connection(&mut self, target_neuron_id: u64)
        requires
            old(self).wf(),
        ensures
            final(self).wf(),
            has_conn(final(self).connections@, target_neuron_id),
            final(self).connections@.len() == if has_conn(old(self).connections@, target_neuron_id) {
                old(self).connections@.len()
            } else {
                old(self).connections@.len() + 1
            },
            forall|i: int|
                0 <= i < old(self).connections@.len()
                    && (#[trigger] old(self).connections@[i]).0 != target_neuron_id
                    ==> final(self).connections@[i] == old(self).connections@[i],
            forall|i: int|
                0 <= i < final(self).connections@.len()
                    && (#[trigger] final(self).connections@[i]).0 == target_neuron_id
                    ==> 10_000 <= final(self).connections@[i].1 < 100_000,
            forall|i: int|
                0 <= i < old(self).connections@.len()
                    ==> (#[trigger] final(self).connections@[i]).0
                    == old(self).connections@[i].0,
            !has_conn(old(self).connections@, target_neuron_id)
                ==> final(self).connections@.last() == (
                target_neuron_id,
                final(self).connections@.last().1,
            ),
            *final(self) == (LIFNeuron { connections: final(self).connections, ..*old(self) }),
    {
        let initial_weight = random_initial_weight();
        let ghost orig = self.connections@;
        let n = self.connections.len();
        let mut i: usize = 0;
        while i < n
            invariant
                *self == (LIFNeuron { connections: self.connections, ..*old(self) }),
                orig == old(self).connections@,
                orig == self.connections@,
                n == orig.len(),
                conns_wf(orig),
                old(self).learning_rate >= 0,
                10_000 <= initial_weight < 100_000,
                0 <= i <= n,
                forall|k: int| 0 <= k < i ==> (#[trigger] orig[k]).0 != target_neuron_id,
            decreases n - i,
        {
            if self.connections[i].0 == target_neuron_id {
                self.connections[i] = (target_neuron_id, initial_weight);
                proof {
                    assert(has_conn(orig, target_neuron_id));
                    assert(has_conn(self.connections@, target_neuron_id));
                    assert forall|a: int, b: int|
                        0 <= a < b < self.connections@.len() implies (
                    #[trigger] self.connections@[a]).0 != (#[trigger] self.connections@[b]).0 by {
                        assert(orig[a].0 != orig[b].0);
                    }
                    assert forall|a: int|
                        0 <= a < self.connections@.len() implies 0 <= (
                    #[trigger] self.connections@[a]).1 <= SCALE by {
                        if a != i {
                            assert(self.connections@[a] == orig[a]);
                        }
                    }
                }
                return ;
            }
            i = i + 1;
        }
        proof {
            assert(!has_conn(orig, target_neuron_id)) by {
                if has_conn(orig, target_neuron_id) {
                    let j = choose|j: int| 0 <= j < orig.len() && (#[trigger] orig[j]).0
                        == target_neuron_id;
                    assert(false);
                }
            }
        }
        self.connections.push((target_neuron_id, initial_weight));
        proof {
            assert((self.connections@[orig.len() as int]).0 == target_neuron_id);
            assert(has_conn(self.connections@, target_neuron_id));
            assert forall|a: int, b: int|
                0 <= a < b < self.connections@.len() implies (#[trigger] self.connections@[a]).0
                != (#[trigger] self.connections@[b]).0 by {
                if b < orig.len() {
                    assert(orig[a].0 != orig[b].0);
                } else {
                    assert(self.connections@[a] == orig[a]);
                    assert(orig[a].0 != target_neuron_id);
                }
            }
            assert forall|a: int|
                0 <= a < self.connections@.len() implies 0 <= (
            #[trigger] self.connections@[a]).1 <= SCALE by {
                if a < orig.len() {
                    assert(self.connections@[a] == orig[a]);
                }
            }
        }
    }

    /// Processes an incoming spike: ignored while refractory — for any
    /// event and any weight — otherwise the potential rises by the spike
    /// value scaled by the synaptic weight.
    pub fn process_spike_event(&mut self, event: &SpikeEvent, weight: i64)
        ensures
            old(self).refractory_countdown > 0 ==> *final(self) == *old(self),
            old(self).refractory_countdown == 0 ==> *final(self) == (LIFNeuron {
                membrane_potential: sat64(
                    old(self).membrane_potential + scaled(event.value as int, weight as int),
                ) as i64,
                ..*old(self)
            }),
    {
        if self.refractory_countdown > 0 {
            return ;
        }
        let contribution = mul_weight(event.value, weight);
        self.membrane_potential = sat_add(self.membrane_potential, contribution);
    }

    /// One simulated cycle: while refractory, only the countdown falls;
    /// otherwise the potential leaks (clamped from below at the reset
    /// potential) and the unit fires exactly when the leaked potential
    /// reaches the threshold, resetting and entering the refractory period
    /// with the fire instant recorded.
    pub fn update_and_check_fire(&mut self) -> (fired: bool)
        ensures
            (final(self).membrane_potential as int, final(self).refractory_countdown as int)
                == step_pc(
                old(self).leak_rate as int,
                old(self).reset_potential as int,
                old(self).threshold as int,
                old(self).refractory_cycles as int,
                old(self).membrane_potential as int,
                old(self).refractory_countdown as int,
            ),
            old(self).refractory_countdown > 0 ==> !fired && *final(self) == (LIFNeuron {
                refractory_countdown: (old(self).refractory_countdown - 1) as u32,
                ..*old(self)
            }),
            old(self).refractory_countdown == 0 ==> {
                &&& fired == (old(self).leaked() >= old(self).threshold)
                &&& (fired ==> {
                    &&& final(self).membrane_potential == old(self).reset_potential
                    &&& final(self).refractory_countdown == old(self).refractory_cycles
                    &&& final(self).last_spike_time is Some
                    &&& final(self).id == old(self).id
                    &&& final(self).threshold == old(self).threshold
                    &&& final(self).leak_rate == old(self).leak_rate
                    &&& final(self).reset_potential == old(self).reset_potential
                    &&& final(self).refractory_cycles == old(self).refractory_cycles
                    &&& final(self).connections == old(self).connections
                    &&& final(self).learning_rate == old(self).learning_rate
                })
                &&& (!fired ==> *final(self) == (LIFNeuron {
                    membrane_potential: old(self).leaked() as i64,
                    ..*old(self)
                }))
            },
    {
        if self.refractory_countdown > 0 {
            self.refractory_countdown = self.refractory_countdown - 1;
            return false;
        }
        self.membrane_potential = sat_sub(self.membrane_potential, self.leak_rate);
        if self.membrane_potential < self.reset_potential {
            self.membrane_potential = self.reset_potential;
        }
        if self.membrane_potential >= self.threshold {
            self.membrane_potential = self.reset_potential;
            self.refractory_countdown = self.refractory_cycles;
            self.last_spike_time = Some(now_millis());
            true
        } else {
            false
        }
    }

    /// Applies spike-timing dependent plasticity: a no-op if the unit has
    /// never fired; otherwise every recent event whose presynaptic unit is
    /// a connection target moves that weight by `stdp_delta` of its timing
    /// and the weight is re-clamped into `[0, SCALE]`.
    pub fn apply_stdp(&mut self, recent_input_events: &Vec<SpikeEvent>)
        requires
            old(self).wf(),
        ensures
            final(self).wf(),
            old(self).last_spike_time is None ==> *final(self) == *old(self),
            old(self).last_spike_time matches Some(t) ==> *final(self) == (LIFNeuron {
                connections: final(self).connections,
                ..*old(self)
            }) && final(self).connections@ == stdp_fold(
                old(self).connections@,
                recent_input_events@,
                t as int,
                old(self).learning_rate as int,
            ),
    {
        let post_time = match self.last_spike_time {
            Some(t) => t,
            None => {
                return ;
            },
        };
        let lr = self.learning_rate;
        let ghost all_events = recent_input_events@;
        let ghost orig = self.connections@;
        proof {
            assert(all_events.skip(0) =~= all_events);
        }
        let mut e: usize = 0;
        while e < recent_input_events.len()
            invariant
                *self == (LIFNeuron { connections: self.connections, ..*old(self) }),
                orig == old(self).connections@,
                0 <= e <= all_events.len(),
                all_events == recent_input_events@,
                conns_wf(self.connections@),
                self.connections@.len() == orig.len(),
                forall|i: int|
                    0 <= i < orig.len() ==> (#[trigger] self.connections@[i]).0 == orig[i].0,
                stdp_fold(self.connections@, all_events.skip(e as int), post_time as int, lr as int)
                    == stdp_fold(orig, all_events, post_time as int, lr as int),
                lr >= 0,
                lr == old(self).learning_rate,
                old(self).last_spike_time == Some(post_time),
            decreases all_events.len() - e,
        {
            let ghost pre = self.connections@;
            let event = &recent_input_events[e];
            let n = self.connections.len();
            let mut i: usize = 0;
            while i < n
                invariant
                    *self == (LIFNeuron { connections: self.connections, ..*old(self) }),
                    n == self.connections@.len(),
                    n == pre.len(),
                    0 <= i <= n,
                    conns_wf(pre),
                    lr >= 0,
                    forall|k: int|
                        0 <= k < i ==> (#[trigger] self.connections@[k]) == stdp_step(
                            pre,
                            all_events[e as int],
                            post_time as int,
                            lr as int,
                        )[k],
                    forall|k: int| i <= k < n ==> (#[trigger] self.connections@[k]) == pre[k],
                    0 <= e < all_events.len(),
                    all_events[e as int].presynaptic_neuron_id
                        == event.presynaptic_neuron_id,
                    all_events[e as int].timestamp == event.timestamp,
                decreases n - i,
            {
                let c = self.connections[i];
                proof {
                    lemma_stdp_step_index(pre, all_events[e as int], post_time as int, lr as int, i as int);
                }
                if c.0 == event.presynaptic_neuron_id {
                    let dt: i64 = match post_time.checked_sub(event.timestamp) {
                        Some(d) => d,
                        None => {
                            // The mathematical difference overflows `i64`,
                            // so its magnitude is far outside the 20 ms
                            // windows; any stand-in outside them acts alike.
                            20
                        },
                    };
                    let delta: i64 = if dt > 0 && dt < 20 {
                        lr / dt
                    } else if dt < 0 && dt > -20 {
                        -(lr / -dt)
                    } else {
                        0
                    };
                    proof {
                        let real_dt = post_time - all_events[e as int].timestamp;
                        assert(stdp_delta(real_dt, lr as int) == delta);
                    }
                    let moved = sat_add(c.1, delta);
                    let clamped: i64 = if moved < 0 {
                        0
                    } else if moved > SCALE {
                        SCALE
                    } else {
                        moved
                    };
                    proof {
                        assert(clamped == clamp01(
                            pre[i as int].1 + stdp_delta(
                                post_time - all_events[e as int].timestamp,
                                lr as int,
                            ),
                        ));
                    }
                    self.connections[i] = (c.0, clamped);
                }
                i = i + 1;
            }
            proof {
                assert(self.connections@ =~= stdp_step(
                    pre,
                    all_events[e as int],
                    post_time as int,
                    lr as int,
                ));
                assert(all_events.skip(e as int).drop_first() =~= all_events.skip(e + 1));
                assert(all_events.skip(e as int)[0] == all_events[e as int]);
                lemma_stdp_step_wf(pre, all_events[e as int], post_time as int, lr as int);
            }
            e = e + 1;
        }
        proof {
            assert(all_events.skip(e as int) =~= Seq::<SpikeEvent>::empty());
        }
    }
}

} // verus!
