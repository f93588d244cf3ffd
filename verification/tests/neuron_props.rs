//! Behavior of single spiking units: convergence, refractory handling,
//! and plasticity bounds.

use axiom_islam::config::SystemConfig;
use axiom_islam::neuron::{LIFNeuron, SpikeEvent};
use axiom_islam::SCALE;

fn test_config() -> SystemConfig {
    let mut config = SystemConfig::new();
    config.lif_neuron_threshold = 5 * SCALE;
    config.lif_neuron_leak_rate = SCALE;
    config.lif_neuron_reset_potential = 0;
    config.lif_neuron_refractory_cycles = 3;
    config
}

#[test]
fn repeated_steps_converge_to_reset_and_stop_decreasing() {
    let config = test_config();
    let mut unit = LIFNeuron::new(&config);
    unit.apply_input(3 * SCALE + 500_000);
    let mut previous = unit.membrane_potential;
    for _ in 0..10 {
        unit.update_and_check_fire();
        assert!(unit.membrane_potential <= previous);
        assert!(unit.membrane_potential >= config.lif_neuron_reset_potential);
        previous = unit.membrane_potential;
    }
    assert_eq!(unit.membrane_potential, config.lif_neuron_reset_potential);
    unit.update_and_check_fire();
    assert_eq!(unit.membrane_potential, config.lif_neuron_reset_potential);
}

#[test]
fn refractory_period_ignores_spikes_for_exactly_three_steps() {
    let config = test_config();
    let mut unit = LIFNeuron::new(&config);
    // Drive the unit over threshold so it fires and becomes refractory.
    unit.apply_input(10 * SCALE);
    let fired = unit.update_and_check_fire();
    assert!(fired);
    assert_eq!(unit.refractory_countdown, 3);
    let spike = SpikeEvent {
        presynaptic_neuron_id: 7,
        timestamp: 0,
        value: SCALE,
    };
    for step in 0..3 {
        let before = unit.membrane_potential;
        unit.process_spike_event(&spike, SCALE);
        assert_eq!(
            unit.membrane_potential, before,
            "spike accepted during refractory step {step}"
        );
        unit.update_and_check_fire();
    }
    assert_eq!(unit.refractory_countdown, 0);
    let before = unit.membrane_potential;
    unit.process_spike_event(&spike, SCALE);
    assert_eq!(unit.membrane_potential, before + SCALE);
}

#[test]
fn weights_stay_within_unit_interval_after_many_learn_calls() {
    let config = test_config();
    let mut unit = LIFNeuron::new(&config);
    unit.learning_rate = 500_000;
    unit.form_connection(42);
    unit.form_connection(43);
    // Make the unit fire so plasticity applies.
    unit.apply_input(10 * SCALE);
    assert!(unit.update_and_check_fire());
    let t = unit.last_spike_time.expect("fire recorded");
    // Alternate causal and anti-causal spikes, many times over.
    for round in 0..200 {
        let dt: i64 = if round % 2 == 0 { 5 } else { -5 };
        let events = vec![
            SpikeEvent {
                presynaptic_neuron_id: 42,
                timestamp: t - dt,
                value: SCALE,
            },
            SpikeEvent {
                presynaptic_neuron_id: 43,
                timestamp: t - 1,
                value: SCALE,
            },
        ];
        unit.apply_stdp(&events);
        for (_, w) in &unit.connections {
            assert!(*w >= 0 && *w <= SCALE);
        }
    }
}

#[test]
fn initial_connection_weight_lies_in_narrow_positive_band() {
    let config = test_config();
    let mut unit = LIFNeuron::new(&config);
    for target in 0..50u64 {
        unit.form_connection(target);
    }
    assert_eq!(unit.connections.len(), 50);
    for (_, w) in &unit.connections {
        assert!(*w >= 10_000 && *w < 100_000);
    }
}
