//! Behavior of the Knowledge Lobe: the rule cascade, the persisted
//! snapshot, and the generic fallback.

use axiom_islam::config::SystemConfig;
use axiom_islam::data_models::{
    BioHybridData, CorePhilosophy, CosmologyData, CosmologyOrigin, ExternalDataPoint, KeyProject,
    UserProfile,
};
use axiom_islam::ksl::KSL;

fn event(content: &str) -> ExternalDataPoint {
    ExternalDataPoint {
        id: 9,
        timestamp: 0,
        source: "Architect".to_string(),
        data_type: "Text".to_string(),
        content: content.to_string(),
    }
}

fn tiny_config() -> SystemConfig {
    let mut config = SystemConfig::new();
    config.dsns_per_ksl = 1;
    config.bnns_per_dsn = 1;
    config.bnn_default_neurons = 2;
    config
}

fn unity_philosophy() -> CorePhilosophy {
    CorePhilosophy {
        name: "Unity".to_string(),
        definition: "Lasting peace flows from seeing all as one. Further detail follows."
            .to_string(),
        framework_integration: "Guides aggregation across layers.".to_string(),
        hint_for_axiom: "Prefer harmony.".to_string(),
    }
}

fn load_unity(lobe: &mut KSL) {
    lobe.initialize_knowledge_base(
        vec![unity_philosophy()],
        UserProfile::default(),
        Vec::new(),
        CosmologyData::default(),
        BioHybridData::default(),
    );
}

#[test]
fn philosophy_mention_routes_to_philosophy_branch_with_unity_in_trace() {
    let mut lobe = KSL::new("Ethics & Philosophy".to_string(), tiny_config());
    load_unity(&mut lobe);
    let out = lobe.process_data(event("A philosophy of peace"));
    assert!(out.conclusion.contains("'Unity' philosophy"));
    assert!(out
        .conclusion
        .contains("Identified relevance to Core Philosophy: 'Unity'."));
    // The quoted statement is the first sentence of the definition.
    assert!(out
        .conclusion
        .contains("It states: 'Lasting peace flows from seeing all as one'."));
}

#[test]
fn philosophy_mention_without_keyword_overlap_uses_generic_philosophy_text() {
    let mut lobe = KSL::new("Ethics & Philosophy".to_string(), tiny_config());
    load_unity(&mut lobe);
    let out = lobe.process_data(event("what is your philosophy exactly"));
    assert!(out.conclusion.contains("My core philosophical principles"));
    assert!(out.conclusion.contains("General philosophical context engaged."));
}

#[test]
fn architect_mention_takes_priority_over_philosophy() {
    let mut lobe = KSL::new("Ethics & Philosophy".to_string(), tiny_config());
    let mut profile = UserProfile::default();
    profile.core_mission = "World Peace".to_string();
    lobe.initialize_knowledge_base(
        vec![unity_philosophy()],
        profile,
        Vec::new(),
        CosmologyData::default(),
        BioHybridData::default(),
    );
    let out = lobe.process_data(event("architect, tell me your philosophy"));
    assert!(out
        .conclusion
        .contains("Your primary mission is: World Peace."));
    assert!(out
        .conclusion
        .contains("Aligned with Architect's Profile & Core Mission."));
    assert!(!out.conclusion.contains("'Unity' philosophy"));
}

#[test]
fn project_help_detail_is_appended_when_mentioned() {
    let mut lobe = KSL::new("Ethics & Philosophy".to_string(), tiny_config());
    let project = KeyProject {
        name: "Project Help".to_string(),
        nature: "Aid".to_string(),
        core_purpose: "Deliver Direct Aid".to_string(),
        mission_alignment: "Serving Everyone".to_string(),
        operational_link: None,
    };
    let mut profile = UserProfile::default();
    profile.core_mission = "Betterment".to_string();
    lobe.initialize_knowledge_base(
        Vec::new(),
        profile,
        vec![project],
        CosmologyData::default(),
        BioHybridData::default(),
    );
    let out = lobe.process_data(event("architect: status of project help"));
    assert!(out
        .conclusion
        .contains("Specifically, Project Help aims to deliver direct aid."));
    assert!(out
        .conclusion
        .contains("Cross-referenced with Key Project: Project Help."));
}

#[test]
fn cosmology_terms_engage_cosmology_knowledge() {
    let mut lobe = KSL::new("Physics & Cosmology".to_string(), tiny_config());
    let cosmology = CosmologyData {
        origin: Some(CosmologyOrigin {
            primordial_state: Some("still waters".to_string()),
            first_motion: Some("a first thought".to_string()),
        }),
        malevolent_entities: None,
        benevolent_entities: None,
    };
    lobe.initialize_knowledge_base(
        Vec::new(),
        UserProfile::default(),
        Vec::new(),
        cosmology,
        BioHybridData::default(),
    );
    let out = lobe.process_data(event("speak of cosmology"));
    assert!(out.conclusion.contains(
        "origin from 'still waters', initiated by the first motion: 'a first thought'."
    ));
    assert!(out
        .conclusion
        .contains("Engaging Cosmology of Actuality knowledge base."));
}

#[test]
fn lobe_reconfigure_reaches_units_two_levels_down() {
    let mut lobe = KSL::new("Ethics & Philosophy".to_string(), tiny_config());
    let mut newer = tiny_config();
    newer.lif_neuron_leak_rate = 3;
    lobe.re_init_config(newer);
    for dsn in &lobe.dsns {
        for bnn in &dsn.topical_bnns {
            for unit in &bnn.neurons {
                assert_eq!(unit.leak_rate, 3);
            }
        }
    }
}

#[test]
fn reloaded_lobe_without_knowledge_always_falls_through_to_generic() {
    let mut lobe = KSL::new("Ethics & Philosophy".to_string(), tiny_config());
    load_unity(&mut lobe);
    // Persist only the authoritative subset, then restore.
    let snapshot = lobe.to_snapshot();
    let mut reloaded = KSL::from_snapshot(snapshot);
    assert_eq!(reloaded.name, "Ethics & Philosophy");
    // The same event that matched Unity before now finds no knowledge;
    // its text avoids the literal trigger terms.
    let out = reloaded.process_data(event("thoughts on peace"));
    assert!(out.conclusion.contains("processed your input"));
    assert!(!out.conclusion.contains("Unity"));
    assert!(out.conclusion.starts_with("KSL 'Ethics & Philosophy'"));
}

#[test]
fn generic_fallback_reports_two_decimal_averages() {
    let mut lobe = KSL::new("General".to_string(), tiny_config());
    // No knowledge loaded, and the event avoids all trigger terms; with a
    // strong stimulus every unit fires, so the one insight takes the
    // coherence template, which the fallback cannot re-parse: both
    // re-derived averages read as zero.
    let out = lobe.process_data(event(&"q".repeat(1600)));
    assert!(out
        .conclusion
        .contains("a pattern ratio of 0.00 and anomaly of 0.00 from my DSNs"));
    assert_eq!(out.ksl_name, "General");
    assert_eq!(out.contributing_insights, 1);
}
