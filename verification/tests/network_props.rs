//! Behavior of the Topic Network, Domain Network and Quantum Pocket
//! layers.

use axiom_islam::config::SystemConfig;
use axiom_islam::dsn::DSN;
use axiom_islam::snn_quantum_pocket::SnnQuantumPocket;
use axiom_islam::topical_bnn::TopicalBNN;
use axiom_islam::data_models::ExternalDataPoint;
use axiom_islam::SCALE;

fn event(content: &str) -> ExternalDataPoint {
    ExternalDataPoint {
        id: 1,
        timestamp: 0,
        source: "test".to_string(),
        data_type: "Text".to_string(),
        content: content.to_string(),
    }
}

fn small_config() -> SystemConfig {
    let mut config = SystemConfig::new();
    config.bnn_default_neurons = 4;
    config.bnns_per_dsn = 2;
    config.dsns_per_ksl = 1;
    config.snn_quantum_pocket_default_neurons = 4;
    config.snn_processing_cycles = 5;
    config
}

#[test]
fn pattern_and_anomaly_ratios_are_complementary() {
    let config = small_config();
    let mut bnn = TopicalBNN::new(config);
    // A middling input: whatever fires, the two ratios must sum to one.
    let out = bnn.process_data(event("a mixed signal of moderate size"));
    assert_eq!(out.pattern_ratio + out.anomaly_ratio, SCALE);
    let out2 = bnn.process_data(event(&"x".repeat(4000)));
    assert_eq!(out2.pattern_ratio + out2.anomaly_ratio, SCALE);
}

#[test]
fn four_units_at_rest_all_fire_on_strong_stimulus() {
    let config = small_config();
    let mut bnn = TopicalBNN::new(config);
    for unit in &bnn.neurons {
        assert_eq!(unit.membrane_potential, bnn.config.lif_neuron_reset_potential);
    }
    // Stimulus: len * 0.01 * 5.0 = len * 0.05; 1600 bytes gives 80.0,
    // which clears the 75.0 leak plus the 5.0 threshold for every unit.
    let out = bnn.process_data(event(&"z".repeat(1600)));
    assert_eq!(out.pattern_ratio, SCALE);
    assert_eq!(out.anomaly_ratio, 0);
}

#[test]
fn empty_population_reports_zero_ratios() {
    let mut config = small_config();
    config.bnn_default_neurons = 0;
    let mut bnn = TopicalBNN::new(config);
    let out = bnn.process_data(event("anything"));
    assert_eq!(out.pattern_ratio, 0);
    assert_eq!(out.anomaly_ratio, 0);
}

#[test]
fn dsn_reports_strong_coherence_when_every_unit_fires() {
    let config = small_config();
    let mut dsn = DSN::new(config);
    let out = dsn.process_data(event(&"z".repeat(1600)));
    assert_eq!(out.supporting_bnns, 2);
    assert!(out
        .insight
        .starts_with("Strong semantic coherence observed (Pattern Ratio: 1.00)"));
    assert!(out.insight.contains("\nSupporting BNNs: 2/2. BNN Analysis: ["));
}

#[test]
fn dsn_reports_high_anomaly_when_nothing_fires() {
    let config = small_config();
    let mut dsn = DSN::new(config);
    let out = dsn.process_data(event("hi"));
    assert_eq!(out.supporting_bnns, 0);
    assert!(out
        .insight
        .starts_with("High semantic anomaly detected (Ratio: 1.00)"));
}

#[test]
fn quantum_pocket_detects_anomaly_on_silent_population() {
    let config = small_config();
    let mut pocket = SnnQuantumPocket::new(config);
    assert_eq!(pocket.neurons.len(), 4);
    // Each unit connects to max(4 / 10, 1) = 1 random peer.
    for unit in &pocket.neurons {
        assert_eq!(unit.connections.len(), 1);
        assert_ne!(unit.connections[0].0, unit.id);
    }
    let snapshot = pocket.process_data(event(""));
    // An empty event gives no stimulus; nothing can fire.
    assert!(snapshot.anomaly_detected);
    assert!(!snapshot.pattern_detected);
}

#[test]
fn pocket_restore_keeps_identity_and_rebuilds_units_fresh() {
    let config = small_config();
    let mut pocket = SnnQuantumPocket::new(config);
    let old_id = pocket.id;
    // Stir the population, then persist only identity and configuration.
    pocket.process_data(event(&"y".repeat(800)));
    let snapshot = pocket.to_snapshot();
    let restored = SnnQuantumPocket::from_snapshot(snapshot);
    assert_eq!(restored.id, old_id);
    assert_eq!(restored.neurons.len(), 4);
    for unit in &restored.neurons {
        assert_eq!(unit.membrane_potential, restored.config.lif_neuron_reset_potential);
        assert_eq!(unit.refractory_countdown, 0);
        assert_eq!(unit.connections.len(), 1);
        assert_ne!(unit.connections[0].0, unit.id);
        assert!(unit.connections[0].1 >= 10_000 && unit.connections[0].1 < 100_000);
    }
}

#[test]
fn reconfigure_propagates_to_every_unit_of_every_network() {
    let config = small_config();
    let mut dsn = DSN::new(config);
    dsn.process_data(event("stir the potentials a bit"));
    let before: Vec<Vec<i64>> = dsn
        .topical_bnns
        .iter()
        .map(|b| b.neurons.iter().map(|u| u.membrane_potential).collect())
        .collect();
    let mut newer = small_config();
    newer.lif_neuron_threshold = 7 * SCALE;
    newer.default_learning_rate = 42;
    dsn.re_init_config(newer);
    for (b, old_ps) in dsn.topical_bnns.iter().zip(before) {
        for (u, old_p) in b.neurons.iter().zip(old_ps) {
            assert_eq!(u.threshold, 7 * SCALE);
            assert_eq!(u.learning_rate, 42);
            assert_eq!(u.membrane_potential, old_p);
        }
    }
}

#[test]
fn reconfigure_updates_parameters_but_keeps_state() {
    let config = small_config();
    let mut bnn = TopicalBNN::new(config);
    bnn.process_data(event("warm it up a little"));
    let potentials: Vec<i64> = bnn.neurons.iter().map(|u| u.membrane_potential).collect();
    let mut newer = small_config();
    newer.lif_neuron_threshold = 9 * SCALE;
    newer.lif_neuron_leak_rate = 2 * SCALE;
    bnn.re_init_config(newer);
    for (unit, old_p) in bnn.neurons.iter().zip(potentials) {
        assert_eq!(unit.threshold, 9 * SCALE);
        assert_eq!(unit.leak_rate, 2 * SCALE);
        assert_eq!(unit.membrane_potential, old_p);
    }
}
