//! Global configuration for the scoring hierarchy.
//!
//! Continuous parameters are fixed-point `i64` values scaled by
//! [`crate::fixed::SCALE`]: a stored value `v` stands for `v / SCALE`.

use vstd::prelude::*;
use crate::fixed::SCALE;

verus! {

/// Largest admitted magnitude for the fixed-point parameters that enter
/// multiplications, so that stimulus products stay within `i128` bounds.
pub const PARAM_MAX: i64 = 1_000_000_000_000;

/// Configuration snapshot copied into every component at construction and
/// replaced by `re_init_config`.
pub struct SystemConfig {
    pub data_root_path: String,
    pub core_philosophies_data_path: String,
    pub key_projects_data_path: String,
    pub user_profile_data_path: String,
    pub cosmology_data_path: String,
    pub bio_hybrid_data_path: String,
    pub ksl_count: usize,
    pub dsns_per_ksl: usize,
    pub bnns_per_dsn: usize,
    pub qps_per_bnn: usize,
    pub snn_quantum_pocket_default_neurons: usize,
    pub bnn_default_neurons: usize,
    pub default_learning_rate: i64,
    pub snn_processing_cycles: u32,
    pub lif_neuron_leak_rate: i64,
    pub lif_neuron_threshold: i64,
    pub lif_neuron_reset_potential: i64,
    pub lif_neuron_refractory_cycles: u32,
    pub lif_neuron_base_power_mw: i64,
    pub neuron_activity_multiplier: i64,
    pub dsn_pol_threshold: i64,
    pub bnn_consensus_threshold: i64,
    pub ara_ethical_violation_penalty_coherence: i64,
    pub ara_matria_operation_strength: i64,
    pub ara_base_sadness_threshold: i64,
    pub ara_base_joy_threshold: i64,
    pub network_broadcast_delay_ms: u32,
    pub architect_key: String,
}

impl SystemConfig {
    /// Bounds forced by the fixed-point representation: the parameters that
    /// enter products must be non-negative and small enough that the
    /// intermediate `i128` arithmetic cannot overflow.
    pub open spec fn wf(&self) -> bool {
        &&& 0 <= self.default_learning_rate
        &&& 0 <= self.neuron_activity_multiplier <= PARAM_MAX
    }

    /// Numeric equality of two snapshots together with view equality of the
    /// textual fields; what a copied configuration preserves.
    pub open spec fn equiv(&self, other: &Self) -> bool {
        &&& self.data_root_path@ == other.data_root_path@
        &&& self.core_philosophies_data_path@ == other.core_philosophies_data_path@
        &&& self.key_projects_data_path@ == other.key_projects_data_path@
        &&& self.user_profile_data_path@ == other.user_profile_data_path@
        &&& self.cosmology_data_path@ == other.cosmology_data_path@
        &&& self.bio_hybrid_data_path@ == other.bio_hybrid_data_path@
        &&& self.ksl_count == other.ksl_count
        &&& self.dsns_per_ksl == other.dsns_per_ksl
        &&& self.bnns_per_dsn == other.bnns_per_dsn
        &&& self.qps_per_bnn == other.qps_per_bnn
        &&& self.snn_quantum_pocket_default_neurons == other.snn_quantum_pocket_default_neurons
        &&& self.bnn_default_neurons == other.bnn_default_neurons
        &&& self.default_learning_rate == other.default_learning_rate
        &&& self.snn_processing_cycles == other.snn_processing_cycles
        &&& self.lif_neuron_leak_rate == other.lif_neuron_leak_rate
        &&& self.lif_neuron_threshold == other.lif_neuron_threshold
        &&& self.lif_neuron_reset_potential == other.lif_neuron_reset_potential
        &&& self.lif_neuron_refractory_cycles == other.lif_neuron_refractory_cycles
        &&& self.lif_neuron_base_power_mw == other.lif_neuron_base_power_mw
        &&& self.neuron_activity_multiplier == other.neuron_activity_multiplier
        &&& self.dsn_pol_threshold == other.dsn_pol_threshold
        &&& self.bnn_consensus_threshold == other.bnn_consensus_threshold
        &&& self.ara_ethical_violation_penalty_coherence
            == other.ara_ethical_violation_penalty_coherence
        &&& self.ara_matria_operation_strength == other.ara_matria_operation_strength
        &&& self.ara_base_sadness_threshold == other.ara_base_sadness_threshold
        &&& self.ara_base_joy_threshold == other.ara_base_joy_threshold
        &&& self.network_broadcast_delay_ms == other.network_broadcast_delay_ms
        &&& self.architect_key@ == other.architect_key@
    }

    /// Creates a new `SystemConfig` with the stock default values.
    pub fn new() -> (r: Self)
        ensures
            r.wf(),
            r.ksl_count == 12,
            r.dsns_per_ksl == 36,
            r.bnns_per_dsn == 18,
            r.qps_per_bnn == 21,
            r.snn_quantum_pocket_default_neurons == 21,
            r.bnn_default_neurons == 21,
            r.default_learning_rate == 1_000,
            r.dsn_pol_threshold == 750_000,
            r.bnn_consensus_threshold == 650_000,
            r.snn_processing_cycles == 333,
            r.lif_neuron_leak_rate == 75 * SCALE,
            r.lif_neuron_threshold == 5 * SCALE,
            r.lif_neuron_reset_potential == 0,
            r.lif_neuron_refractory_cycles == 3,
            r.lif_neuron_base_power_mw == 0,
            r.ara_ethical_violation_penalty_coherence == 150_000,
            r.ara_matria_operation_strength == 80_000,
            r.ara_base_sadness_threshold == 500_000,
            r.ara_base_joy_threshold == 500_000,
            r.network_broadcast_delay_ms == 10,
            r.neuron_activity_multiplier == 5 * SCALE,
    {
        SystemConfig {
            data_root_path: String::from_str("data/"),
            core_philosophies_data_path: String::from_str("core_philosophies.json"),
            key_projects_data_path: String::from_str("key_projects.json"),
            user_profile_data_path: String::from_str("user_profile.json"),
            cosmology_data_path: String::from_str("cosmology_data.json"),
            bio_hybrid_data_path: String::from_str("bio_hybrid_data.json"),
            ksl_count: 12,
            dsns_per_ksl: 36,
            bnns_per_dsn: 18,
            qps_per_bnn: 21,
            snn_quantum_pocket_default_neurons: 21,
            bnn_default_neurons: 21,
            default_learning_rate: 1_000,
            dsn_pol_threshold: 750_000,
            bnn_consensus_threshold: 650_000,
            snn_processing_cycles: 333,
            lif_neuron_leak_rate: 75_000_000,
            lif_neuron_threshold: 5_000_000,
            lif_neuron_reset_potential: 0,
            lif_neuron_refractory_cycles: 3,
            // One hundredth of a billionth of a milliwatt rounds to zero on
            // the fixed-point grid; the field is never read by the pipeline.
            lif_neuron_base_power_mw: 0,
            ara_ethical_violation_penalty_coherence: 150_000,
            ara_matria_operation_strength: 80_000,
            ara_base_sadness_threshold: 500_000,
            ara_base_joy_threshold: 500_000,
            network_broadcast_delay_ms: 10,
            neuron_activity_multiplier: 5_000_000,
            architect_key: String::from_str("0K12291033b19l21e0UU@#$"),
        }
    }
}

impl Clone for SystemConfig {
    /// A copy is numerically identical and textually view-equal.
    fn clone(&self) -> (r: Self)
        ensures
            r.equiv(self),
    {
        SystemConfig {
            data_root_path: self.data_root_path.clone(),
            core_philosophies_data_path: self.core_philosophies_data_path.clone(),
            key_projects_data_path: self.key_projects_data_path.clone(),
            user_profile_data_path: self.user_profile_data_path.clone(),
            cosmology_data_path: self.cosmology_data_path.clone(),
            bio_hybrid_data_path: self.bio_hybrid_data_path.clone(),
            ksl_count: self.ksl_count,
            dsns_per_ksl: self.dsns_per_ksl,
            bnns_per_dsn: self.bnns_per_dsn,
            qps_per_bnn: self.qps_per_bnn,
            snn_quantum_pocket_default_neurons: self.snn_quantum_pocket_default_neurons,
            bnn_default_neurons: self.bnn_default_neurons,
            default_learning_rate: self.default_learning_rate,
            snn_processing_cycles: self.snn_processing_cycles,
            lif_neuron_leak_rate: self.lif_neuron_leak_rate,
            lif_neuron_threshold: self.lif_neuron_threshold,
            lif_neuron_reset_potential: self.lif_neuron_reset_potential,
            lif_neuron_refractory_cycles: self.lif_neuron_refractory_cycles,
            lif_neuron_base_power_mw: self.lif_neuron_base_power_mw,
            neuron_activity_multiplier: self.neuron_activity_multiplier,
            dsn_pol_threshold: self.dsn_pol_threshold,
            bnn_consensus_threshold: self.bnn_consensus_threshold,
            ara_ethical_violation_penalty_coherence: self.ara_ethical_violation_penalty_coherence,
            ara_matria_operation_strength: self.ara_matria_operation_strength,
            ara_base_sadness_threshold: self.ara_base_sadness_threshold,
            ara_base_joy_threshold: self.ara_base_joy_threshold,
            network_broadcast_delay_ms: self.network_broadcast_delay_ms,
            architect_key: self.architect_key.clone(),
        }
    }
}

impl Default for SystemConfig {
    /// The default configuration is the stock one.
    fn default() -> (r: Self)
        ensures
            r.wf(),
    {
        SystemConfig::new()
    }
}

} // verus!
