//! Behavior of keyword extraction, number rendering, hashing, and the
//! configuration defaults.

use axiom_islam::config::SystemConfig;
use axiom_islam::data_models::extract_keywords;
use axiom_islam::fixed::ratio_of;
use axiom_islam::identity::{axiom_mission, k20bleuu_identifier};
use axiom_islam::text::{format_two_dec, str_contains, u64_to_string};
use axiom_islam::utils::calculate_sha256;
use axiom_islam::SCALE;

#[test]
fn keywords_are_lowercased_filtered_and_ordered() {
    assert_eq!(
        extract_keywords("Hello, World! the cat"),
        vec!["hello".to_string(), "world".to_string(), "cat".to_string()]
    );
    // Stop words and words of at most two bytes disappear.
    assert_eq!(extract_keywords("the and is to a of"), Vec::<String>::new());
    assert_eq!(extract_keywords("ox it at"), Vec::<String>::new());
    assert_eq!(extract_keywords(""), Vec::<String>::new());
    // Punctuation splits words.
    assert_eq!(
        extract_keywords("bio-hybrid systems"),
        vec!["bio".to_string(), "hybrid".to_string(), "systems".to_string()]
    );
    // Mixed case collapses; this fails if lowering returned its input.
    assert_eq!(extract_keywords("QUANTUM Quantum quantum"), vec![
        "quantum".to_string(),
        "quantum".to_string(),
        "quantum".to_string()
    ]);
}

#[test]
fn decimal_renderings_are_exact() {
    assert_eq!(u64_to_string(0), "0");
    assert_eq!(u64_to_string(12345), "12345");
    assert_eq!(u64_to_string(u64::MAX), "18446744073709551615");
    assert_eq!(format_two_dec(0), "0.00");
    assert_eq!(format_two_dec(SCALE), "1.00");
    assert_eq!(format_two_dec(650_000), "0.65");
    assert_eq!(format_two_dec(333_333), "0.33");
    assert_eq!(format_two_dec(995_000), "1.00");
}

#[test]
fn ratio_is_a_truncated_fixed_point_fraction() {
    assert_eq!(ratio_of(1, 3), 333_333);
    assert_eq!(ratio_of(0, 5), 0);
    assert_eq!(ratio_of(5, 5), SCALE);
}

#[test]
fn sha256_matches_the_published_test_vector() {
    assert_eq!(
        calculate_sha256("abc"),
        "ba7816bf8f01cfea414140de5dae2223b00361a396177a9cb410ff61f20015ad"
    );
    assert_eq!(calculate_sha256("").len(), 64);
    assert_ne!(calculate_sha256("abc"), calculate_sha256("abd"));
}

#[test]
fn substring_search_finds_and_rejects() {
    assert!(str_contains("the quantum pocket", "quantum"));
    assert!(str_contains("abc", ""));
    assert!(!str_contains("abc", "abcd"));
    assert!(!str_contains("philos", "philosophy"));
}

#[test]
fn stock_configuration_carries_the_expected_values() {
    let config = SystemConfig::new();
    assert_eq!(config.ksl_count, 12);
    assert_eq!(config.dsns_per_ksl, 36);
    assert_eq!(config.bnns_per_dsn, 18);
    assert_eq!(config.bnn_default_neurons, 21);
    assert_eq!(config.snn_quantum_pocket_default_neurons, 21);
    assert_eq!(config.snn_processing_cycles, 333);
    assert_eq!(config.lif_neuron_threshold, 5 * SCALE);
    assert_eq!(config.lif_neuron_leak_rate, 75 * SCALE);
    assert_eq!(config.lif_neuron_reset_potential, 0);
    assert_eq!(config.lif_neuron_refractory_cycles, 3);
    assert_eq!(config.default_learning_rate, 1_000);
    assert_eq!(config.dsn_pol_threshold, 750_000);
    assert_eq!(config.bnn_consensus_threshold, 650_000);
    assert_eq!(config.neuron_activity_multiplier, 5 * SCALE);
    assert_eq!(config.data_root_path, "data/");
}

#[test]
fn identity_texts_are_fixed() {
    assert!(k20bleuu_identifier().contains("K20bleUU"));
    assert!(axiom_mission().contains("World Peace"));
}
