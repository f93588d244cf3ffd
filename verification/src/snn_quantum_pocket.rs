//! The Quantum Pocket: an independent, randomly-connected population of
//! spiking units simulated over multiple cycles, with spike propagation
//! and plasticity inside each cycle.
//!
//! A full cycle (stimulus, step, propagate, learn) runs under exclusive
//! access to the population: the methods take the pocket by `&mut`, so an
//! owner that shares a pocket serializes whole cycles behind its lock and
//! no partial mid-cycle state is observable.

use vstd::prelude::*;
use crate::config::SystemConfig;
use crate::data_models::ExternalDataPoint;
use crate::fixed::{sat64, SCALE};
use crate::neuron::{conns_wf, LIFNeuron, SpikeEvent};
use crate::trusted::{choose_from, fresh_id, now_millis};

verus! {

/// A snapshot of the pocket's verdict after processing one event.
pub struct QPSnapshot {
    pub anomaly_detected: bool,
    pub pattern_detected: bool,
}

/// The uniform stimulus the pocket applies on the first cycle: a tenth
/// per content byte, scaled by the activity multiplier.
pub open spec fn qp_stimulus(byte_len: int, mult: int) -> int {
    sat64((byte_len * 100_000 * mult) / (SCALE as int))
}

/// Consistency of the verdict flags with one total fire count: a pattern
/// is detected when the count exceeds a quarter of population times
/// cycles, an anomaly when it falls below half the population.
pub open spec fn qp_verdict(r: QPSnapshot, fires: int, default_neurons: int, cycles: int) -> bool {
    &&& r.pattern_detected == (fires > default_neurons * cycles / 4)
    &&& r.anomaly_detected == (fires < default_neurons / 2)
}

/// What every mutation inside the pocket's cycles preserves of a unit:
/// identity, parameters, and the set and order of connection targets.
pub open spec fn unit_preserved(pre: LIFNeuron, post: LIFNeuron) -> bool {
    &&& post.id == pre.id
    &&& post.threshold == pre.threshold
    &&& post.leak_rate == pre.leak_rate
    &&& post.reset_potential == pre.reset_potential
    &&& post.refractory_cycles == pre.refractory_cycles
    &&& post.learning_rate == pre.learning_rate
    &&& post.connections@.len() == pre.connections@.len()
    &&& forall|j: int|
        0 <= j < pre.connections@.len() ==> (#[trigger] post.connections@[j]).0
            == pre.connections@[j].0
}

/// How many outgoing connections construction aims to give each unit: a
/// tenth of the population, at least one.
pub open spec fn qp_connections_target(n: int) -> int {
    if n / 10 >= 1 {
        n / 10
    } else {
        1
    }
}

/// The wiring construction establishes for a unit in a population of `n`:
/// every connection leads to another unit's identifier with an initial
/// weight in the `[0.01, 0.1)` band, and there are at most
/// `qp_connections_target(n)` of them, never more than the other units.
pub open spec fn qp_wired(u: LIFNeuron, n: int) -> bool {
    &&& forall|j: int|
        0 <= j < u.connections@.len() ==> (#[trigger] u.connections@[j]).0 != u.id && 10_000
            <= u.connections@[j].1 < 100_000
    &&& u.connections@.len() <= qp_connections_target(n)
    &&& n > 0 ==> u.connections@.len() <= n - 1
}

/// A pocket's population exactly as construction leaves it under this
/// configuration: the configured count of units, each at rest with the
/// configured parameters and the construction wiring.
pub open spec fn qp_population_fresh(p: SnnQuantumPocket, c: SystemConfig) -> bool {
    &&& p.neurons@.len() == c.snn_quantum_pocket_default_neurons
    &&& forall|i: int|
        0 <= i < p.neurons@.len() ==> {
            &&& (#[trigger] p.neurons@[i]).membrane_potential == c.lif_neuron_reset_potential
            &&& p.neurons@[i].refractory_countdown == 0
            &&& p.neurons@[i].threshold == c.lif_neuron_threshold
            &&& p.neurons@[i].leak_rate == c.lif_neuron_leak_rate
            &&& p.neurons@[i].reset_potential == c.lif_neuron_reset_potential
            &&& p.neurons@[i].refractory_cycles == c.lif_neuron_refractory_cycles
            &&& qp_wired(p.neurons@[i], p.neurons@.len() as int)
        }
}

/// Where the drawn unit identifiers are pairwise distinct — random 64-bit
/// values may in principle collide — every unit carries exactly
/// `min(qp_connections_target(n), n - 1)` outgoing connections.
pub open spec fn qp_wiring_exact(p: SnnQuantumPocket) -> bool {
    (forall|a: int, b: int|
        0 <= a < b < p.neurons@.len() ==> (#[trigger] p.neurons@[a]).id != (
        #[trigger] p.neurons@[b]).id) ==> forall|i: int|
        0 <= i < p.neurons@.len() ==> (#[trigger] p.neurons@[i]).connections@.len() == (
        if qp_connections_target(p.neurons@.len() as int) <= p.neurons@.len() - 1 {
            qp_connections_target(p.neurons@.len() as int)
        } else {
            p.neurons@.len() - 1
        })
}

fn find_unit(neurons: &Vec<LIFNeuron>, id: u64) -> (r: Option<usize>)
    ensures
        match r {
            Some(t) => 0 <= t < neurons@.len() && neurons@[t as int].id == id,
            None => true,
        },
{
    let n = neurons.len();
    let mut t: usize = 0;
    while t < n
        invariant
            n == neurons@.len(),
            0 <= t <= n,
        decreases n - t,
    {
        if neurons[t].id == id {
            return Some(t);
        }
        t = t + 1;
    }
    None
}

/// An independent population of spiking units under collective ownership.
pub struct SnnQuantumPocket {
    pub id: u64,
    pub neurons: Vec<LIFNeuron>,
    pub config: SystemConfig,
}

/// The authoritative subset of a pocket that a persisted snapshot
/// carries: identity and configuration, never the unit collection.
pub struct PocketSnapshot {
    pub id: u64,
    pub config: SystemConfig,
}

impl SnnQuantumPocket {
    /// Structural invariant: well-formed configuration and units.
    pub open spec fn wf(&self) -> bool {
        &&& self.config.wf()
        &&& forall|i: int| 0 <= i < self.neurons@.len() ==> (#[trigger] self.neurons@[i]).wf()
    }

    /// Creates a pocket of `snn_quantum_pocket_default_neurons` fresh
    /// units and forms a tenth as many random outgoing connections per
    /// unit (at least one), never to the unit itself, each with an initial
    /// weight in the `[0.01, 0.1)` band; when the drawn identifiers are
    /// pairwise distinct — random 64-bit values may in principle collide —
    /// every unit gets exactly `min(qp_connections_target(n), n - 1)`
    /// connections.
    pub fn new(config: SystemConfig) -> (r: Self)
        requires
            config.wf(),
        ensures
            r.wf(),
            r.config == config,
            qp_population_fresh(r, config),
            qp_wiring_exact(r),
    {
        let mut neurons: Vec<LIFNeuron> = Vec::new();
        let mut k: usize = 0;
        while k < config.snn_quantum_pocket_default_neurons
            invariant
                config.wf(),
                0 <= k <= config.snn_quantum_pocket_default_neurons,
                neurons@.len() == k,
                forall|i: int|
                    0 <= i < neurons@.len() ==> {
                        &&& (#[trigger] neurons@[i]).wf()
                        &&& neurons@[i].membrane_potential == config.lif_neuron_reset_potential
                        &&& neurons@[i].refractory_countdown == 0
                        &&& neurons@[i].threshold == config.lif_neuron_threshold
                        &&& neurons@[i].leak_rate == config.lif_neuron_leak_rate
                        &&& neurons@[i].reset_potential == config.lif_neuron_reset_potential
                        &&& neurons@[i].refractory_cycles == config.lif_neuron_refractory_cycles
                        &&& neurons@[i].connections@.len() == 0
                    },
            decreases config.snn_quantum_pocket_default_neurons - k,
        {
            neurons.push(LIFNeuron::new(&config));
            k = k + 1;
        }
        let n = neurons.len();
        let mut neuron_ids: Vec<u64> = Vec::new();
        let mut k2: usize = 0;
        while k2 < n
            invariant
                n == neurons@.len(),
                0 <= k2 <= n,
                neuron_ids@.len() == k2,
                forall|i: int| 0 <= i < k2 ==> #[trigger] neuron_ids@[i] == neurons@[i].id,
            decreases n - k2,
        {
            neuron_ids.push(neurons[k2].id);
            k2 = k2 + 1;
        }
        let ghost ids0 = neuron_ids@;
        let ghost distinct: bool = ids0.no_duplicates();
        let connections_to_make: usize = if n / 10 >= 1 {
            n / 10
        } else {
            1
        };
        let ghost wanted: int = if qp_connections_target(n as int) <= n - 1 {
            qp_connections_target(n as int)
        } else {
            n - 1
        };
        let mut u: usize = 0;
        while u < n
            invariant
                config.wf(),
                n == neurons@.len(),
                n == neuron_ids@.len(),
                ids0 == neuron_ids@,
                distinct == ids0.no_duplicates(),
                connections_to_make == qp_connections_target(n as int),
                wanted == (if qp_connections_target(n as int) <= n - 1 {
                    qp_connections_target(n as int)
                } else {
                    (n - 1) as int
                }),
                0 <= u <= n,
                forall|i: int| 0 <= i < n ==> ids0[i] == (#[trigger] neurons@[i]).id,
                forall|i: int|
                    0 <= i < neurons@.len() ==> {
                        &&& (#[trigger] neurons@[i]).wf()
                        &&& neurons@[i].membrane_potential == config.lif_neuron_reset_potential
                        &&& neurons@[i].refractory_countdown == 0
                        &&& neurons@[i].threshold == config.lif_neuron_threshold
                        &&& neurons@[i].leak_rate == config.lif_neuron_leak_rate
                        &&& neurons@[i].reset_potential == config.lif_neuron_reset_potential
                        &&& neurons@[i].refractory_cycles == config.lif_neuron_refractory_cycles
                    },
                forall|i: int| u <= i < n ==> (#[trigger] neurons@[i]).connections@.len() == 0,
                forall|i: int| 0 <= i < u ==> qp_wired(#[trigger] neurons@[i], n as int),
                distinct ==> forall|i: int|
                    0 <= i < u ==> (#[trigger] neurons@[i]).connections@.len() == wanted,
            decreases n - u,
        {
            let own_id = neurons[u].id;
            proof {
                assert(own_id == ids0[u as int]);
            }
            let mut potential_targets: Vec<u64> = Vec::new();
            let mut j: usize = 0;
            while j < n
                invariant
                    n == neuron_ids@.len(),
                    ids0 == neuron_ids@,
                    distinct == ids0.no_duplicates(),
                    0 <= u < n,
                    own_id == ids0[u as int],
                    0 <= j <= n,
                    forall|p: int|
                        0 <= p < potential_targets@.len() ==> #[trigger] potential_targets@[p]
                            != own_id,
                    forall|p: int|
                        0 <= p < potential_targets@.len() ==> exists|q: int|
                            0 <= q < j && ids0[q] == #[trigger] potential_targets@[p],
                    potential_targets@.len() <= j,
                    j > u ==> potential_targets@.len() <= j - 1,
                    distinct ==> potential_targets@.no_duplicates(),
                    distinct ==> potential_targets@.len() == j - (if j > u {
                        1int
                    } else {
                        0int
                    }),
                decreases n - j,
            {
                if neuron_ids[j] != own_id {
                    let ghost pre_pot = potential_targets@;
                    potential_targets.push(neuron_ids[j]);
                    proof {
                        assert forall|p: int|
                            0 <= p < potential_targets@.len() implies exists|q: int|
                                0 <= q < j + 1 && ids0[q] == #[trigger] potential_targets@[p] by {
                            if p < pre_pot.len() {
                                let q = choose|q: int| 0 <= q < j && ids0[q] == pre_pot[p];
                                assert(0 <= q < j + 1 && ids0[q] == potential_targets@[p]);
                            } else {
                                assert(ids0[j as int] == potential_targets@[p]);
                            }
                        }
                        if distinct {
                            assert forall|p: int, q: int|
                                0 <= p < potential_targets@.len() && 0 <= q
                                    < potential_targets@.len() && p != q
                                    implies potential_targets@[p] != potential_targets@[q] by {
                                if p < pre_pot.len() && q == pre_pot.len() {
                                    let w = choose|w: int| 0 <= w < j && ids0[w] == pre_pot[p];
                                    assert(ids0[w] != ids0[j as int]);
                                } else if q < pre_pot.len() && p == pre_pot.len() {
                                    let w = choose|w: int| 0 <= w < j && ids0[w] == pre_pot[q];
                                    assert(ids0[w] != ids0[j as int]);
                                }
                            }
                        }
                    }
                } else {
                    proof {
                        if distinct {
                            assert(ids0[j as int] == ids0[u as int]);
                            assert(j == u);
                        }
                    }
                }
                j = j + 1;
            }
            if potential_targets.len() > 0 {
                let num_to_choose: usize = if connections_to_make
                    < potential_targets.len() {
                    connections_to_make
                } else {
                    potential_targets.len()
                };
                let targets = choose_from(&potential_targets, num_to_choose);
                proof {
                    assert forall|q: int|
                        0 <= q < targets@.len() implies #[trigger] targets@[q] != own_id by {
                        assert(potential_targets@.contains(targets@[q]));
                        let w = choose|w: int|
                            0 <= w < potential_targets@.len() && potential_targets@[w]
                                == targets@[q];
                    }
                }
                let mut t: usize = 0;
                let ghost pre_units = neurons@;
                while t < targets.len()
                    invariant
                        0 <= u < neurons@.len(),
                        neurons@.len() == pre_units.len(),
                        forall|i: int|
                            0 <= i < neurons@.len() && i != u ==> #[trigger] neurons@[i]
                                == pre_units[i],
                        neurons@[u as int] == (LIFNeuron {
                            connections: neurons@[u as int].connections,
                            ..pre_units[u as int]
                        }),
                        own_id == pre_units[u as int].id,
                        forall|i: int|
                            0 <= i < neurons@.len() ==> (#[trigger] neurons@[i]).wf(),
                        0 <= t <= targets@.len(),
                        forall|q: int|
                            0 <= q < targets@.len() ==> #[trigger] targets@[q] != own_id,
                        forall|j2: int|
                            0 <= j2 < neurons@[u as int].connections@.len() ==> (
                            #[trigger] neurons@[u as int].connections@[j2]).0 != own_id && 10_000
                                <= neurons@[u as int].connections@[j2].1 < 100_000,
                        neurons@[u as int].connections@.len() <= t,
                        pre_units[u as int].connections@.len() == 0,
                        distinct ==> (neurons@[u as int].connections@.len() == t && forall|j2: int|
                            0 <= j2 < t ==> (#[trigger] neurons@[u as int].connections@[j2]).0
                                == targets@[j2]),
                        distinct ==> targets@.no_duplicates(),
                    decreases targets@.len() - t,
                {
                    let ghost pre_conns = neurons@[u as int].connections@;
                    let target = targets[t];
                    proof {
                        if distinct {
                            assert(!crate::neuron::has_conn(pre_conns, target)) by {
                                if crate::neuron::has_conn(pre_conns, target) {
                                    let w = choose|w: int|
                                        0 <= w < pre_conns.len() && (#[trigger] pre_conns[w]).0
                                            == target;
                                    assert(pre_conns[w].0 == targets@[w]);
                                    assert(targets@[w] != targets@[t as int]);
                                }
                            }
                        }
                    }
                    let unit = &mut neurons[u];
                    unit.form_connection(target);
                    proof {
                        let post_conns = neurons@[u as int].connections@;
                        assert forall|j2: int|
                            0 <= j2 < post_conns.len() implies (#[trigger] post_conns[j2]).0
                                != own_id && 10_000 <= post_conns[j2].1 < 100_000 by {
                            if j2 < pre_conns.len() {
                                assert(post_conns[j2].0 == pre_conns[j2].0);
                                if pre_conns[j2].0 != target {
                                    assert(post_conns[j2] == pre_conns[j2]);
                                }
                            } else {
                                assert(post_conns[j2] == post_conns.last());
                            }
                        }
                    }
                    t = t + 1;
                }
            }
            u = u + 1;
        }
        proof {
            if forall|a: int, b: int|
                0 <= a < b < neurons@.len() ==> (#[trigger] neurons@[a]).id != (
                #[trigger] neurons@[b]).id {
                assert(ids0.no_duplicates()) by {
                    assert forall|x: int, y: int|
                        0 <= x < ids0.len() && 0 <= y < ids0.len() && x != y implies ids0[x]
                        != ids0[y] by {
                        assert(ids0[x] == neurons@[x].id);
                        assert(ids0[y] == neurons@[y].id);
                        if x < y {
                            assert(neurons@[x].id != neurons@[y].id);
                        } else {
                            assert(neurons@[y].id != neurons@[x].id);
                        }
                    }
                }
                assert(distinct);
            }
        }
        SnnQuantumPocket { id: fresh_id(), neurons, config }
    }

    /// Consumes the pocket into its persisted, authoritative subset:
    /// identity and configuration; the unit collection is dropped on
    /// purpose and is rebuilt fresh on restore.
    pub fn to_snapshot(self) -> (s: PocketSnapshot)
        ensures
            s.id == self.id,
            s.config == self.config,
            self.wf() ==> s.config.wf(),
    {
        PocketSnapshot { id: self.id, config: self.config }
    }

    /// Restores a pocket from its persisted subset: only the identity is
    /// retained; the unit collection is rebuilt fresh from the
    /// configuration, wired as at construction.
    pub fn from_snapshot(s: PocketSnapshot) -> (r: Self)
        requires
            s.config.wf(),
        ensures
            r.wf(),
            r.id == s.id,
            r.config == s.config,
            qp_population_fresh(r, s.config),
            qp_wiring_exact(r),
    {
        let mut pocket = SnnQuantumPocket::new(s.config);
        pocket.id = s.id;
        pocket
    }

    /// Replaces the configuration snapshot and live-updates every unit's
    /// parameters without touching accumulated potentials or weights.
    pub fn re_init_config(&mut self, config: SystemConfig)
        requires
            old(self).wf(),
            config.wf(),
        ensures
            final(self).wf(),
            final(self).config.equiv(&config),
            final(self).id == old(self).id,
            final(self).neurons@.len() == old(self).neurons@.len(),
            forall|i: int|
                0 <= i < final(self).neurons@.len() ==> final(self).neurons@[i] == (LIFNeuron {
                    threshold: config.lif_neuron_threshold,
                    leak_rate: config.lif_neuron_leak_rate,
                    reset_potential: config.lif_neuron_reset_potential,
                    refractory_cycles: config.lif_neuron_refractory_cycles,
                    learning_rate: config.default_learning_rate,
                    ..(#[trigger] old(self).neurons@[i])
                }),
    {
        self.config = config.clone();
        let n = self.neurons.len();
        let mut i: usize = 0;
        while i < n
            invariant
                n == self.neurons@.len(),
                n == old(self).neurons@.len(),
                0 <= i <= n,
                config.wf(),
                self.config.equiv(&config),
                self.id == old(self).id,
                forall|k: int|
                    0 <= k < i ==> self.neurons@[k] == (LIFNeuron {
                        threshold: config.lif_neuron_threshold,
                        leak_rate: config.lif_neuron_leak_rate,
                        reset_potential: config.lif_neuron_reset_potential,
                        refractory_cycles: config.lif_neuron_refractory_cycles,
                        learning_rate: config.default_learning_rate,
                        ..(#[trigger] old(self).neurons@[k])
                    }),
                forall|k: int|
                    i <= k < n ==> (#[trigger] self.neurons@[k]) == old(self).neurons@[k],
            decreases n - i,
        {
            let un = &mut self.neurons[i];
            un.threshold = config.lif_neuron_threshold;
            un.leak_rate = config.lif_neuron_leak_rate;
            un.reset_potential = config.lif_neuron_reset_potential;
            un.refractory_cycles = config.lif_neuron_refractory_cycles;
            un.learning_rate = config.default_learning_rate;
            i = i + 1;
        }
        proof {
            assert forall|i: int| 0 <= i < self.neurons@.len() implies (
            #[trigger] self.neurons@[i]).wf() by {
                assert(old(self).neurons@[i].wf());
            }
        }
    }

    /// Runs the configured number of simulation cycles for one event: the
    /// first cycle applies a uniform stimulus, every cycle steps all
    /// units, propagates each fired spike to its connection targets, and
    /// lets those targets learn from the cycle's spike batch. The verdict
    /// classifies the total fire count against configured fractions of
    /// the population; fire instants depend on the clock, so only the
    /// consistency of the two flags with one such count is promised.
    pub fn process_data(&mut self, data: ExternalDataPoint) -> (r: QPSnapshot)
        requires
            old(self).wf(),
        ensures
            final(self).wf(),
            final(self).id == old(self).id,
            final(self).config == old(self).config,
            final(self).neurons@.len() == old(self).neurons@.len(),
            forall|i: int|
                0 <= i < old(self).neurons@.len() ==> unit_preserved(
                    #[trigger] old(self).neurons@[i],
                    final(self).neurons@[i],
                ),
            exists|fires: int|
                0 <= fires <= (old(self).config.snn_processing_cycles as int) * (old(
                self).neurons@.len() as int) && #[trigger] qp_verdict(
                    r,
                    fires,
                    old(self).config.snn_quantum_pocket_default_neurons as int,
                    old(self).config.snn_processing_cycles as int,
                ),
    {
        let byte_len = data.content.as_str().len();
        proof {
            let bl = byte_len as int;
            let mu = self.config.neuron_activity_multiplier as int;
            assert(bl <= u64::MAX as int);
            assert(0 <= bl * 100_000 * mu <= 2_000_000_000_000_000_000_000_000
                * crate::config::PARAM_MAX) by (nonlinear_arith)
                requires 0 <= bl <= 20_000_000_000_000_000_000, 0 <= mu <= crate::config::PARAM_MAX;
        }
        let base: i128 = (byte_len as i128) * 100_000 * (self.config.neuron_activity_multiplier
            as i128) / (SCALE as i128);
        let input_value: i64 = if base > (i64::MAX as i128) {
            i64::MAX
        } else {
            base as i64
        };
        proof {
            let bl = byte_len as int;
            let mu = self.config.neuron_activity_multiplier as int;
            vstd::arithmetic::div_mod::lemma_div_pos_is_pos(bl * 100_000 * mu, SCALE as int);
            assert(input_value == qp_stimulus(bl, mu));
        }
        let mut total_fires: u128 = 0;
        let cycles = self.config.snn_processing_cycles;
        let n = self.neurons.len();
        let ghost orig_units = self.neurons@;
        let mut cycle: u32 = 0;
        while cycle < cycles
            invariant
                n == self.neurons@.len(),
                n == orig_units.len(),
                0 <= cycle <= cycles,
                *self == (SnnQuantumPocket { neurons: self.neurons, ..*old(self) }),
                orig_units == old(self).neurons@,
                cycles == old(self).config.snn_processing_cycles,
                forall|i: int|
                    0 <= i < n ==> unit_preserved(
                        #[trigger] orig_units[i],
                        self.neurons@[i],
                    ),
                forall|i: int| 0 <= i < n ==> (#[trigger] self.neurons@[i]).wf(),
                total_fires <= (cycle as int) * (n as int),
            decreases cycles - cycle,
        {
            let mut spikes: Vec<SpikeEvent> = Vec::new();
            let mut firing_indices: Vec<usize> = Vec::new();
            let mut fires_this_cycle: u64 = 0;
            let ghost at_cycle_start = self.neurons@;
            let mut u: usize = 0;
            while u < n
                invariant
                    n == self.neurons@.len(),
                    n == orig_units.len(),
                    0 <= u <= n,
                    *self == (SnnQuantumPocket { neurons: self.neurons, ..*old(self) }),
                    forall|i: int|
                        0 <= i < n ==> unit_preserved(
                            #[trigger] orig_units[i],
                            self.neurons@[i],
                        ),
                    forall|i: int| 0 <= i < n ==> (#[trigger] self.neurons@[i]).wf(),
                    fires_this_cycle <= u,
                    firing_indices@.len() == spikes@.len(),
                    forall|k: int|
                        0 <= k < firing_indices@.len() ==> 0 <= #[trigger] firing_indices@[k] < n,
                decreases n - u,
            {
                let ghost pre_u = self.neurons@[u as int];
                let is_first_cycle = cycle == 0;
                let unit = &mut self.neurons[u];
                if is_first_cycle {
                    unit.apply_input(input_value);
                }
                let fired = unit.update_and_check_fire();
                if fired {
                    fires_this_cycle = fires_this_cycle + 1;
                    let spike = SpikeEvent {
                        presynaptic_neuron_id: self.neurons[u].id,
                        timestamp: now_millis(),
                        value: SCALE,
                    };
                    spikes.push(spike);
                    firing_indices.push(u);
                }
                proof {
                    assert(unit_preserved(pre_u, self.neurons@[u as int]));
                    assert forall|i: int| 0 <= i < n implies unit_preserved(
                        #[trigger] orig_units[i],
                        self.neurons@[i],
                    ) by {
                        if i == u {
                            assert(unit_preserved(orig_units[i], pre_u));
                        }
                    }
                }
                u = u + 1;
            }
            let nf = firing_indices.len();
            let mut f: usize = 0;
            while f < nf
                invariant
                    n == self.neurons@.len(),
                    n == orig_units.len(),
                    0 <= f <= nf,
                    nf == firing_indices@.len(),
                    nf == spikes@.len(),
                    *self == (SnnQuantumPocket { neurons: self.neurons, ..*old(self) }),
                    forall|i: int|
                        0 <= i < n ==> unit_preserved(
                            #[trigger] orig_units[i],
                            self.neurons@[i],
                        ),
                    forall|i: int| 0 <= i < n ==> (#[trigger] self.neurons@[i]).wf(),
                    forall|k: int|
                        0 <= k < firing_indices@.len() ==> 0 <= #[trigger] firing_indices@[k] < n,
                decreases nf - f,
            {
                let f_idx = firing_indices[f];
                let nc = self.neurons[f_idx].connections.len();
                let mut k: usize = 0;
                while k < nc
                    invariant
                        n == self.neurons@.len(),
                        n == orig_units.len(),
                        0 <= f_idx < n,
                        0 <= k <= nc,
                        0 <= f < nf,
                        nf == firing_indices@.len(),
                        nf == spikes@.len(),
                        nc <= self.neurons@[f_idx as int].connections@.len(),
                        *self == (SnnQuantumPocket { neurons: self.neurons, ..*old(self) }),
                        forall|i: int|
                            0 <= i < n ==> unit_preserved(
                                #[trigger] orig_units[i],
                                self.neurons@[i],
                            ),
                        forall|i: int| 0 <= i < n ==> (#[trigger] self.neurons@[i]).wf(),
                    decreases nc - k,
                {
                    let conn = self.neurons[f_idx].connections[k];
                    proof {
                        assert(conns_wf(self.neurons@[f_idx as int].connections@));
                        assert(0 <= conn.1 <= SCALE);
                    }
                    match find_unit(&self.neurons, conn.0) {
                        Some(t) => {
                            let ghost pre_t = self.neurons@[t as int];
                            let spike = &spikes[f];
                            let target = &mut self.neurons[t];
                            target.process_spike_event(spike, conn.1);
                            proof {
                                assert(unit_preserved(pre_t, self.neurons@[t as int]));
                                assert forall|i: int| 0 <= i < n implies unit_preserved(
                                    #[trigger] orig_units[i],
                                    self.neurons@[i],
                                ) by {
                                    if i == t {
                                        assert(unit_preserved(orig_units[i], pre_t));
                                    }
                                }
                            }
                        },
                        None => {},
                    }
                    k = k + 1;
                }
                let mut k2: usize = 0;
                while k2 < nc
                    invariant
                        n == self.neurons@.len(),
                        n == orig_units.len(),
                        0 <= f_idx < n,
                        0 <= k2 <= nc,
                        nc <= self.neurons@[f_idx as int].connections@.len(),
                        *self == (SnnQuantumPocket { neurons: self.neurons, ..*old(self) }),
                        forall|i: int|
                            0 <= i < n ==> unit_preserved(
                                #[trigger] orig_units[i],
                                self.neurons@[i],
                            ),
                        forall|i: int| 0 <= i < n ==> (#[trigger] self.neurons@[i]).wf(),
                    decreases nc - k2,
                {
                    let conn = self.neurons[f_idx].connections[k2];
                    match find_unit(&self.neurons, conn.0) {
                        Some(t) => {
                            let ghost pre_t = self.neurons@[t as int];
                            let target = &mut self.neurons[t];
                            target.apply_stdp(&spikes);
                            proof {
                                match pre_t.last_spike_time {
                                    Some(pt) => {
                                        crate::neuron::lemma_stdp_fold_wf(
                                            pre_t.connections@,
                                            spikes@,
                                            pt as int,
                                            pre_t.learning_rate as int,
                                        );
                                    },
                                    None => {},
                                }
                                assert(unit_preserved(pre_t, self.neurons@[t as int]));
                                assert forall|i: int| 0 <= i < n implies unit_preserved(
                                    #[trigger] orig_units[i],
                                    self.neurons@[i],
                                ) by {
                                    if i == t {
                                        assert(unit_preserved(orig_units[i], pre_t));
                                    }
                                }
                            }
                        },
                        None => {},
                    }
                    k2 = k2 + 1;
                }
                f = f + 1;
            }
            proof {
                assert((cycle as int) * (n as int) + (n as int) == (cycle + 1) * (n as int))
                    by (nonlinear_arith);
                assert((cycle + 1) * (n as int) <= (u32::MAX as int + 1) * (u64::MAX as int))
                    by (nonlinear_arith)
                    requires 0 <= cycle as int, cycle as int + 1 <= u32::MAX as int + 1, 0 <= n
                        as int <= u64::MAX as int;
                assert((u32::MAX as int + 1) * (u64::MAX as int) < u128::MAX as int)
                    by (nonlinear_arith);
            }
            total_fires = total_fires + (fires_this_cycle as u128);
            cycle = cycle + 1;
        }
        proof {
            assert((self.config.snn_quantum_pocket_default_neurons as int) * (
            self.config.snn_processing_cycles as int) < u128::MAX as int) by (nonlinear_arith)
                requires
                    0 <= self.config.snn_quantum_pocket_default_neurons as int <= u64::MAX as int,
                    0 <= self.config.snn_processing_cycles as int <= u32::MAX as int;
        }
        let pattern_threshold: u128 = (self.config.snn_quantum_pocket_default_neurons as u128) * (
        self.config.snn_processing_cycles as u128) / 4;
        let anomaly_threshold: u128 = (self.config.snn_quantum_pocket_default_neurons as u128)
            / 2;
        let pattern_detected = total_fires > pattern_threshold;
        let anomaly_detected = total_fires < anomaly_threshold;
        proof {
            let fires = total_fires as int;
            assert(0 <= fires <= (old(self).config.snn_processing_cycles as int) * (old(
            self).neurons@.len() as int));
            assert(pattern_threshold == (old(
            self).config.snn_quantum_pocket_default_neurons as int) * (old(
            self).config.snn_processing_cycles as int) / 4);
            assert(qp_verdict(
                QPSnapshot { anomaly_detected, pattern_detected },
                fires,
                old(self).config.snn_quantum_pocket_default_neurons as int,
                old(self).config.snn_processing_cycles as int,
            ));
        }
        QPSnapshot { anomaly_detected, pattern_detected }
    }
}

} // verus!
