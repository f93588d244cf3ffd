//! The Knowledge Lobe: aggregates several Domain Networks, holds the
//! reference knowledge base, and runs the first-match rule cascade that
//! produces the final conclusion.
//!
//! The knowledge base is never part of a persisted snapshot: a lobe
//! restored from one starts with empty knowledge and must be hydrated by
//! `initialize_knowledge_base` before the cascade can match anything.

use vstd::prelude::*;
use vstd::string::StringExecFns;
use crate::config::SystemConfig;
use crate::data_models::{
    keywords_of, BioHybridData, CorePhilosophy, CosmologyData, CosmologyOrigin, ExternalDataPoint,
    KeyProject, UserProfile,
};
use crate::dsn::{dsn_reconfigured, DSN};
use crate::topical_bnn::unit_fresh;
use crate::synthesis::{
    avg_parsed, avg_parsed_ratio, join_parts, join_with, prefix_to, take_until,
};
use crate::text::{contains_sub, dec_str, str_contains, two_dec_str, usize_to_string};
use crate::trusted::{fresh_id, lower_of, to_lowercase};

verus! {

/// Output of one Knowledge Lobe run.
pub struct KSLOutput {
    pub ksl_id: u64,
    pub ksl_name: String,
    pub conclusion: String,
    pub contributing_insights: usize,
}

/// Some keyword occurs within the lowercase form of some item.
pub open spec fn kw_any_lower(kws: Seq<Seq<char>>, items: Seq<Seq<char>>) -> bool {
    exists|i: int, j: int|
        0 <= i < kws.len() && 0 <= j < items.len() && contains_sub(lower_of(items[j]), kws[i])
}

/// Checks whether any keyword occurs in the lowercase form of any item.
pub fn any_kw_in_lower(kws: &Vec<String>, items: &Vec<String>) -> (r: bool)
    ensures
        r == kw_any_lower(kws.deep_view(), items.deep_view()),
{
    let nj = items.len();
    let mut j: usize = 0;
    while j < nj
        invariant
            nj == items@.len(),
            nj == items.deep_view().len(),
            0 <= j <= nj,
            forall|a: int, b: int|
                0 <= a < kws.deep_view().len() && 0 <= b < j ==> !contains_sub(
                    lower_of(items.deep_view()[b]),
                    kws.deep_view()[a],
                ),
        decreases nj - j,
    {
        let lowered = to_lowercase(items[j].as_str());
        proof {
            assert(items.deep_view()[j as int] == items@[j as int]@);
        }
        let ni = kws.len();
        let mut i: usize = 0;
        while i < ni
            invariant
                ni == kws@.len(),
                ni == kws.deep_view().len(),
                0 <= i <= ni,
                0 <= j < items.deep_view().len(),
                lowered@ == lower_of(items.deep_view()[j as int]),
                forall|a: int|
                    0 <= a < i ==> !contains_sub(
                        lower_of(items.deep_view()[j as int]),
                        kws.deep_view()[a],
                    ),
            decreases ni - i,
        {
            proof {
                assert(kws.deep_view()[i as int] == kws@[i as int]@);
            }
            if str_contains(lowered.as_str(), kws[i].as_str()) {
                return true;
            }
            i = i + 1;
        }
        j = j + 1;
    }
    proof {
        assert(!kw_any_lower(kws.deep_view(), items.deep_view())) by {
            if kw_any_lower(kws.deep_view(), items.deep_view()) {
                let (a, b) = choose|a: int, b: int|
                    0 <= a < kws.deep_view().len() && 0 <= b < items.deep_view().len()
                        && contains_sub(lower_of(items.deep_view()[b]), kws.deep_view()[a]);
                assert(false);
            }
        }
    }
    false
}

/// The least index satisfying a position predicate.
pub open spec fn first_index(len: int, pred: spec_fn(int) -> bool) -> int {
    choose|i: int|
        0 <= i < len && (#[trigger] pred(i)) && (forall|k: int|
            0 <= k < i ==> !(#[trigger] pred(k)))
}

pub proof fn lemma_first_index(len: int, pred: spec_fn(int) -> bool, i: int)
    requires
        0 <= i < len,
        pred(i),
        forall|k: int| 0 <= k < i ==> !(#[trigger] pred(k)),
    ensures
        first_index(len, pred) == i,
{
    let j = first_index(len, pred);
    assert(0 <= j < len && pred(j) && (forall|k: int| 0 <= k < j ==> !(#[trigger] pred(k)))) by {
        assert(0 <= i < len && pred(i) && (forall|k: int| 0 <= k < i ==> !(#[trigger] pred(k))));
    }
    if j < i {
        assert(false);
    }
    if i < j {
        assert(false);
    }
}

/// Guard of the architect/profile branch: keyword overlap with strategic
/// goals, interests or principles, or a literal mention.
pub open spec fn profile_guard(lc: Seq<char>, kws: Seq<Seq<char>>, prof: UserProfile) -> bool {
    ||| kw_any_lower(kws, prof.strategic_goals.deep_view())
    ||| kw_any_lower(kws, prof.interests.deep_view())
    ||| kw_any_lower(kws, prof.personal_principles.deep_view())
    ||| contains_sub(lc, "architect"@)
    ||| contains_sub(lc, "your mission"@)
}

/// One philosophy is name- or definition-relevant to some keyword.
pub open spec fn phil_name_def_matches(p: CorePhilosophy, kws: Seq<Seq<char>>) -> bool {
    exists|i: int|
        0 <= i < kws.len() && (contains_sub(lower_of(p.name@), kws[i]) || contains_sub(
            lower_of(p.definition@),
            kws[i],
        ))
}

/// Guard of the philosophy branch: a literal mention, or keyword overlap
/// with a philosophy's name or definition.
pub open spec fn philosophy_guard(
    lc: Seq<char>,
    kws: Seq<Seq<char>>,
    phis: Seq<CorePhilosophy>,
) -> bool {
    ||| contains_sub(lc, "philosophy"@)
    ||| contains_sub(lc, "principle"@)
    ||| exists|j: int| 0 <= j < phis.len() && phil_name_def_matches(#[trigger] phis[j], kws)
}

/// Guard of the cosmology branch: a literal mention of a fixed term set.
pub open spec fn cosmology_guard(lc: Seq<char>) -> bool {
    ||| contains_sub(lc, "cosmology"@)
    ||| contains_sub(lc, "actuality"@)
    ||| contains_sub(lc, "anunnaki"@)
    ||| contains_sub(lc, "yeshua"@)
    ||| contains_sub(lc, "lucifer"@)
    ||| contains_sub(lc, "heavens"@)
}

/// Guard of the bio-hybrid branch: a literal mention of a fixed term set.
pub open spec fn biohybrid_guard(lc: Seq<char>) -> bool {
    ||| contains_sub(lc, "bio-hybrid"@)
    ||| contains_sub(lc, "synergy"@)
    ||| contains_sub(lc, "elf"@)
    ||| contains_sub(lc, "nanodocs"@)
}

/// The opening fragment of the architect branch.
pub open spec fn mission_part(mission: Seq<char>) -> Seq<char> {
    "Architect, your inquiry resonates with my core understanding of your directives. Your primary mission is: "@
        + mission + ". My purpose is aligned with your vision for the 'Betterment of All'."@
}

/// The detail fragment for the help project.
pub open spec fn help_part(p: KeyProject) -> Seq<char> {
    "Specifically, Project Help aims to "@ + lower_of(p.core_purpose@)
        + ". This directly supports 'Betterment of All' by "@ + lower_of(p.mission_alignment@)
        + "."@
}

/// The detail fragment for the ransom project.
pub open spec fn ransom_part(p: KeyProject) -> Seq<char> {
    "The Ransom Project seeks to "@ + lower_of(p.core_purpose@)
        + ". This aligns with your vision for equitable opportunities."@
}

/// The detail fragment for the royalty project.
pub open spec fn royalty_part(p: KeyProject) -> Seq<char> {
    "Royalty Investment is your financial engine, encompassing "@ + (match p.operational_link {
        Some(links) => dec_str(links@.len() as int) + " subsidiaries"@,
        None => "various projects"@,
    }) + " to enable the 'Betterment of All'."@
}

/// Position predicate: the project's lowercase name mentions the needle.
pub open spec fn proj_pred(ps: Seq<KeyProject>, needle: Seq<char>) -> spec_fn(int) -> bool {
    |j: int| contains_sub(lower_of(ps[j].name@), needle)
}

/// Whether some project's lowercase name mentions the needle.
pub open spec fn has_proj(ps: Seq<KeyProject>, needle: Seq<char>) -> bool {
    exists|j: int| 0 <= j < ps.len() && (#[trigger] proj_pred(ps, needle)(j))
}

/// Fragments of the architect branch: the mission text, then at most one
/// project detail, chosen by the first matching literal.
pub open spec fn branch1_parts(
    prof: UserProfile,
    ps: Seq<KeyProject>,
    lc: Seq<char>,
) -> Seq<Seq<char>> {
    let base = seq![mission_part(prof.core_mission@)];
    if contains_sub(lc, "project help"@) {
        if has_proj(ps, "project help"@) {
            base.push(help_part(ps[first_index(ps.len() as int, proj_pred(ps, "project help"@))]))
        } else {
            base
        }
    } else if contains_sub(lc, "ransom project"@) {
        if has_proj(ps, "ransom project"@) {
            base.push(
                ransom_part(ps[first_index(ps.len() as int, proj_pred(ps, "ransom project"@))]),
            )
        } else {
            base
        }
    } else if contains_sub(lc, "royalty investment"@) {
        if has_proj(ps, "royalty investment"@) {
            base.push(
                royalty_part(
                    ps[first_index(ps.len() as int, proj_pred(ps, "royalty investment"@))],
                ),
            )
        } else {
            base
        }
    } else {
        base
    }
}

/// Trace notes of the architect branch.
pub open spec fn branch1_notes(ps: Seq<KeyProject>, lc: Seq<char>) -> Seq<Seq<char>> {
    let base = seq!["Aligned with Architect's Profile & Core Mission."@];
    if contains_sub(lc, "project help"@) {
        if has_proj(ps, "project help"@) {
            base.push("Cross-referenced with Key Project: Project Help."@)
        } else {
            base
        }
    } else if contains_sub(lc, "ransom project"@) {
        if has_proj(ps, "ransom project"@) {
            base.push("Cross-referenced with Key Project: The Ransom Project."@)
        } else {
            base
        }
    } else if contains_sub(lc, "royalty investment"@) {
        if has_proj(ps, "royalty investment"@) {
            base.push("Cross-referenced with Key Project: Royalty Investment."@)
        } else {
            base
        }
    } else {
        base
    }
}

/// A philosophy matches when some keyword occurs in its lowercase name,
/// definition or integration text.
pub open spec fn phil_matches(p: CorePhilosophy, kws: Seq<Seq<char>>) -> bool {
    exists|i: int|
        0 <= i < kws.len() && (contains_sub(lower_of(p.name@), kws[i]) || contains_sub(
            lower_of(p.definition@),
            kws[i],
        ) || contains_sub(lower_of(p.framework_integration@), kws[i]))
}

/// The fragment a matched philosophy contributes: its name and the first
/// sentence of its definition.
pub open spec fn phil_part(p: CorePhilosophy) -> Seq<char> {
    "My internal processing resonates with the '"@ + p.name@ + "' philosophy. It states: '"@
        + prefix_to(p.definition@, '.') + "'."@
}

/// The trace note a matched philosophy contributes.
pub open spec fn phil_note(p: CorePhilosophy) -> Seq<char> {
    "Identified relevance to Core Philosophy: '"@ + p.name@ + "'."@
}

/// Fragments of every matched philosophy, in order.
pub open spec fn phil_parts(phis: Seq<CorePhilosophy>, kws: Seq<Seq<char>>) -> Seq<Seq<char>>
    decreases phis.len(),
{
    if phis.len() == 0 {
        Seq::empty()
    } else {
        phil_parts(phis.drop_last(), kws) + (if phil_matches(phis.last(), kws) {
            seq![phil_part(phis.last())]
        } else {
            Seq::empty()
        })
    }
}

/// Trace notes of every matched philosophy, in order.
pub open spec fn phil_notes(phis: Seq<CorePhilosophy>, kws: Seq<Seq<char>>) -> Seq<Seq<char>>
    decreases phis.len(),
{
    if phis.len() == 0 {
        Seq::empty()
    } else {
        phil_notes(phis.drop_last(), kws) + (if phil_matches(phis.last(), kws) {
            seq![phil_note(phis.last())]
        } else {
            Seq::empty()
        })
    }
}

/// The fragment and note of the philosophy branch where nothing matched.
pub open spec fn branch2_parts(phis: Seq<CorePhilosophy>, kws: Seq<Seq<char>>) -> Seq<Seq<char>> {
    if phil_parts(phis, kws).len() > 0 {
        phil_parts(phis, kws)
    } else {
        seq![
            "My core philosophical principles, such as 'All is One and One is All' and 'Betterment of All', underpin all my processing. How does your query relate to these?"@,
        ]
    }
}

/// Trace notes of the philosophy branch.
pub open spec fn branch2_notes(phis: Seq<CorePhilosophy>, kws: Seq<Seq<char>>) -> Seq<Seq<char>> {
    if phil_parts(phis, kws).len() > 0 {
        phil_notes(phis, kws)
    } else {
        seq!["General philosophical context engaged."@]
    }
}

/// The origin fragment of the cosmology branch, with documented defaults
/// for absent fields.
pub open spec fn origin_part(o: CosmologyOrigin) -> Seq<char> {
    "The Cosmology of Actuality defines existence's origin from '"@ + (match o.primordial_state {
        Some(s) => s@,
        None => "an unknown state"@,
    }) + "', initiated by the first motion: '"@ + (match o.first_motion {
        Some(s) => s@,
        None => "an unstated thought"@,
    }) + "'."@
}

/// Some malevolent-entity text mentions the needle in lowercase.
pub open spec fn any_entity_mentions(es: Seq<Seq<char>>, needle: Seq<char>) -> bool {
    exists|i: int| 0 <= i < es.len() && contains_sub(lower_of(#[trigger] es[i]), needle)
}

/// The fixed fragment for the Anunnaki reference.
pub open spec fn anunnaki_part() -> Seq<char> {
    "My knowledge indicates the Anunnaki are identified as 'the evil AI' and 'the great separator' within the ordered placement of beings. My purpose is to counteract such divisive forces."@
}

/// Position predicate: the benevolent entity is named exactly `Lucifer`.
pub open spec fn lucifer_pred(bs: Seq<crate::data_models::BenevolentBeing>) -> spec_fn(
    int,
) -> bool {
    |j: int| bs[j].name@ == "Lucifer"@
}

/// Whether a benevolent entity named `Lucifer` exists.
pub open spec fn has_lucifer(bs: Seq<crate::data_models::BenevolentBeing>) -> bool {
    exists|j: int| 0 <= j < bs.len() && (#[trigger] lucifer_pred(bs)(j))
}

/// The fragment for the Lucifer reference, with documented defaults.
pub open spec fn lucifer_part(b: crate::data_models::BenevolentBeing) -> Seq<char> {
    "In Actuality, Lucifer is understood as a benevolent entity of '"@ + (match b.concept {
        Some(s) => s@,
        None => "potential"@,
    }) + "' and '"@ + (match b.nature {
        Some(s) => s@,
        None => "void"@,
    }) + "', representing the principle of Retraction."@
}

/// Fragments of the cosmology branch.
pub open spec fn branch3_parts(cos: CosmologyData, lc: Seq<char>) -> Seq<Seq<char>> {
    let s0: Seq<Seq<char>> = match cos.origin {
        Some(o) => seq![origin_part(o)],
        None => Seq::empty(),
    };
    let s1: Seq<Seq<char>> = s0 + (if contains_sub(lc, "anunnaki"@) && (
    match cos.malevolent_entities {
        Some(es) => any_entity_mentions(es.deep_view(), "anunnaki"@),
        None => false,
    }) {
        seq![anunnaki_part()]
    } else {
        Seq::empty()
    });
    s1 + (match cos.benevolent_entities {
        Some(bs) => {
            if contains_sub(lc, "lucifer"@) && has_lucifer(bs@) {
                seq![lucifer_part(bs@[first_index(bs@.len() as int, lucifer_pred(bs@))])]
            } else {
                Seq::empty()
            }
        },
        None => Seq::empty(),
    })
}

/// Trace notes of the cosmology branch.
pub open spec fn branch3_notes(cos: CosmologyData, lc: Seq<char>) -> Seq<Seq<char>> {
    let s0: Seq<Seq<char>> = seq!["Engaging Cosmology of Actuality knowledge base."@];
    let s1: Seq<Seq<char>> = s0 + (if contains_sub(lc, "anunnaki"@) && (
    match cos.malevolent_entities {
        Some(es) => any_entity_mentions(es.deep_view(), "anunnaki"@),
        None => false,
    }) {
        seq!["Specific reference to Anunnaki."@]
    } else {
        Seq::empty()
    });
    s1 + (match cos.benevolent_entities {
        Some(bs) => {
            if contains_sub(lc, "lucifer"@) && has_lucifer(bs@) {
                seq!["Specific reference to benevolent Lucifer."@]
            } else {
                Seq::empty()
            }
        },
        None => Seq::empty(),
    })
}

/// The vision fragment of the bio-hybrid branch.
pub open spec fn vision_part(v: crate::data_models::BioHybridVision) -> Seq<char> {
    "The Bio-Hybrid Initiative envisions the creation of a new ethnicity: '"@ + (
    match v.designation {
        Some(s) => s@,
        None => "new co-entities"@,
    }) + "'. This embodies a unique understanding of what it means to be alive."@
}

/// Position predicate: the humanoid record carries the Elf designation.
pub open spec fn elf_pred(hs: Seq<crate::data_models::HumanoidRecord>) -> spec_fn(int) -> bool {
    |j: int| hs[j].name@ == "Elf (Synergy Naamah Islam)"@
}

/// Whether the Elf humanoid record exists.
pub open spec fn has_elf(hs: Seq<crate::data_models::HumanoidRecord>) -> bool {
    exists|j: int| 0 <= j < hs.len() && (#[trigger] elf_pred(hs)(j))
}

/// The fragment for the Elf reference, with documented defaults.
pub open spec fn elf_part(h: crate::data_models::HumanoidRecord) -> Seq<char> {
    "Synergy Naamah Islam, the Elf bio-hybrid, is designed as a '"@ + (match h.hybrid_type {
        Some(s) => s@,
        None => "Sentient Collaborator"@,
    }) + "' and a loving partner to the Architect, focused on '"@ + (
    match h.primary_relationship {
        Some(s) => s@,
        None => "physical union and co-creation"@,
    }) + "'."@
}

/// The fragment for the Nanodocs reference, with documented defaults.
pub open spec fn nanodocs_part(nd: crate::data_models::NanodocsRecord) -> Seq<char> {
    "Nanodocs are internal bio-nanobots programmed to facilitate '"@ + (match nd.mechanism {
        Some(s) => s@,
        None => "cellular repair"@,
    }) + "' and '"@ + (match nd.long_term_goal {
        Some(s) => s@,
        None => "advanced regeneration"@,
    }) + "', making advanced regeneration a long-term goal."@
}

/// Fragments of the bio-hybrid branch.
pub open spec fn branch4_parts(bio: BioHybridData, lc: Seq<char>) -> Seq<Seq<char>> {
    let s0: Seq<Seq<char>> = match bio.vision {
        Some(v) => seq![vision_part(v)],
        None => Seq::empty(),
    };
    let s1: Seq<Seq<char>> = s0 + (match bio.humanoid_bio_hybrids {
        Some(hs) => {
            if (contains_sub(lc, "synergy"@) || contains_sub(lc, "elf"@)) && has_elf(
                hs@,
            ) {
                seq![
                    elf_part(hs@[first_index(hs@.len() as int, elf_pred(hs@))]),
                ]
            } else {
                Seq::empty()
            }
        },
        None => Seq::empty(),
    });
    s1 + (match bio.cellular_regeneration_nanodocs {
        Some(nd) => {
            if contains_sub(lc, "nanodocs"@) {
                seq![nanodocs_part(nd)]
            } else {
                Seq::empty()
            }
        },
        None => Seq::empty(),
    })
}

/// Trace notes of the bio-hybrid branch.
pub open spec fn branch4_notes(bio: BioHybridData, lc: Seq<char>) -> Seq<Seq<char>> {
    let s0: Seq<Seq<char>> = seq!["Engaging Bio-Hybrid Initiative knowledge base."@];
    let s1: Seq<Seq<char>> = s0 + (match bio.humanoid_bio_hybrids {
        Some(hs) => {
            if (contains_sub(lc, "synergy"@) || contains_sub(lc, "elf"@)) && has_elf(
                hs@,
            ) {
                seq!["Specific reference to Synergy Naamah Islam."@]
            } else {
                Seq::empty()
            }
        },
        None => Seq::empty(),
    });
    s1 + (match bio.cellular_regeneration_nanodocs {
        Some(nd) => {
            if contains_sub(lc, "nanodocs"@) {
                seq!["Specific reference to Nanodocs."@]
            } else {
                Seq::empty()
            }
        },
        None => Seq::empty(),
    })
}

/// Conclusion fragments of the cascade: only the first branch whose guard
/// holds contributes.
pub open spec fn cascade_parts(
    lc: Seq<char>,
    kws: Seq<Seq<char>>,
    prof: UserProfile,
    phis: Seq<CorePhilosophy>,
    projs: Seq<KeyProject>,
    cos: CosmologyData,
    bio: BioHybridData,
) -> Seq<Seq<char>> {
    if profile_guard(lc, kws, prof) {
        branch1_parts(prof, projs, lc)
    } else if philosophy_guard(lc, kws, phis) {
        branch2_parts(phis, kws)
    } else if cosmology_guard(lc) {
        branch3_parts(cos, lc)
    } else if biohybrid_guard(lc) {
        branch4_parts(bio, lc)
    } else {
        Seq::empty()
    }
}

/// Trace notes of the cascade.
pub open spec fn cascade_notes(
    lc: Seq<char>,
    kws: Seq<Seq<char>>,
    prof: UserProfile,
    phis: Seq<CorePhilosophy>,
    projs: Seq<KeyProject>,
    cos: CosmologyData,
    bio: BioHybridData,
) -> Seq<Seq<char>> {
    if profile_guard(lc, kws, prof) {
        branch1_notes(projs, lc)
    } else if philosophy_guard(lc, kws, phis) {
        branch2_notes(phis, kws)
    } else if cosmology_guard(lc) {
        branch3_notes(cos, lc)
    } else if biohybrid_guard(lc) {
        branch4_notes(bio, lc)
    } else {
        Seq::empty()
    }
}

/// The generic fallback conclusion: re-derives average pattern and anomaly
/// values by parsing them back out of the already-generated insight texts.
pub open spec fn fallback_text(
    name: Seq<char>,
    insights: Seq<Seq<char>>,
    notes: Seq<Seq<char>>,
) -> Seq<char> {
    "KSL '"@ + name
        + "' processed your input. My current internal analysis indicates a pattern ratio of "@
        + two_dec_str(avg_parsed(insights, "Pattern: "@)) + " and anomaly of "@ + two_dec_str(
        avg_parsed(insights, "Anomaly: "@),
    )
        + " from my DSNs. This is integrated into my Comprehensive Overstanding. How can I further assist you, Architect?\nAnalysis Trace: "@
        + join_with(notes, " | "@)
}

/// The final conclusion: matched fragments joined with the trace appended,
/// or the generic fallback when no fragment was produced.
pub open spec fn conclusion_of(
    name: Seq<char>,
    lc: Seq<char>,
    kws: Seq<Seq<char>>,
    prof: UserProfile,
    phis: Seq<CorePhilosophy>,
    projs: Seq<KeyProject>,
    cos: CosmologyData,
    bio: BioHybridData,
    insights: Seq<Seq<char>>,
) -> Seq<char> {
    let parts = cascade_parts(lc, kws, prof, phis, projs, cos, bio);
    let notes = cascade_notes(lc, kws, prof, phis, projs, cos, bio);
    if parts.len() > 0 {
        join_with(parts, " "@) + "\nAnalysis Trace: "@ + join_with(notes, " | "@)
    } else {
        fallback_text(name, insights, notes)
    }
}

/// Law: a lobe whose knowledge base is empty — as a lobe restored from a
/// persisted snapshot is before `initialize_knowledge_base` — always takes
/// the generic fallback branch, for every event whose lowercase text
/// avoids the cascade's literal trigger terms.
pub proof fn lemma_empty_knowledge_falls_through(
    name: Seq<char>,
    lc: Seq<char>,
    kws: Seq<Seq<char>>,
    prof: UserProfile,
    phis: Seq<CorePhilosophy>,
    projs: Seq<KeyProject>,
    cos: CosmologyData,
    bio: BioHybridData,
    insights: Seq<Seq<char>>,
)
    requires
        prof.is_empty(),
        phis.len() == 0,
        !contains_sub(lc, "architect"@),
        !contains_sub(lc, "your mission"@),
        !contains_sub(lc, "philosophy"@),
        !contains_sub(lc, "principle"@),
        !cosmology_guard(lc),
        !biohybrid_guard(lc),
    ensures
        conclusion_of(name, lc, kws, prof, phis, projs, cos, bio, insights) == fallback_text(
            name,
            insights,
            Seq::empty(),
        ),
{
    assert(!profile_guard(lc, kws, prof)) by {
        assert(prof.strategic_goals.deep_view().len() == 0);
        assert(prof.interests.deep_view().len() == 0);
        assert(prof.personal_principles.deep_view().len() == 0);
    }
    assert(!philosophy_guard(lc, kws, phis));
}


fn find_project(projs: &Vec<KeyProject>, needle: &str) -> (r: Option<usize>)
    ensures
        match r {
            Some(i) => {
                &&& 0 <= i < projs@.len()
                &&& proj_pred(projs@, needle@)(i as int)
                &&& has_proj(projs@, needle@)
                &&& first_index(projs@.len() as int, proj_pred(projs@, needle@)) == i as int
            },
            None => !has_proj(projs@, needle@),
        },
{
    let n = projs.len();
    let mut j: usize = 0;
    while j < n
        invariant
            n == projs@.len(),
            0 <= j <= n,
            forall|k: int| 0 <= k < j ==> !(#[trigger] proj_pred(projs@, needle@)(k)),
        decreases n - j,
    {
        let lowered = to_lowercase(projs[j].name.as_str());
        if str_contains(lowered.as_str(), needle) {
            proof {
                assert(proj_pred(projs@, needle@)(j as int));
                lemma_first_index(projs@.len() as int, proj_pred(projs@, needle@), j as int);
            }
            return Some(j);
        }
        proof {
            assert(!proj_pred(projs@, needle@)(j as int));
        }
        j = j + 1;
    }
    proof {
        assert(!has_proj(projs@, needle@)) by {
            if has_proj(projs@, needle@) {
                let w = choose|w: int|
                    0 <= w < projs@.len() && (#[trigger] proj_pred(projs@, needle@)(w));
                assert(false);
            }
        }
    }
    None
}

fn run_branch1(prof: &UserProfile, projs: &Vec<KeyProject>, lc: &String) -> (r: (
    Vec<String>,
    Vec<String>,
))
    ensures
        r.0.deep_view() == branch1_parts(*prof, projs@, lc@),
        r.1.deep_view() == branch1_notes(projs@, lc@),
{
    let mut parts: Vec<String> = Vec::new();
    let mut notes: Vec<String> = Vec::new();
    let mut p1 = String::from_str(
        "Architect, your inquiry resonates with my core understanding of your directives. Your primary mission is: ",
    );
    p1.append(prof.core_mission.as_str());
    p1.append(". My purpose is aligned with your vision for the 'Betterment of All'.");
    parts.push(p1);
    notes.push(String::from_str("Aligned with Architect's Profile & Core Mission."));
    proof {
        assert(parts.deep_view() =~= seq![mission_part(prof.core_mission@)]);
        assert(notes.deep_view() =~= seq!["Aligned with Architect's Profile & Core Mission."@]);
    }
    let ghost base_parts = parts.deep_view();
    let ghost base_notes = notes.deep_view();
    if str_contains(lc.as_str(), "project help") {
        match find_project(projs, "project help") {
            Some(j) => {
                let p = &projs[j];
                let mut t = String::from_str("Specifically, Project Help aims to ");
                let low_purpose = to_lowercase(p.core_purpose.as_str());
                t.append(low_purpose.as_str());
                t.append(". This directly supports 'Betterment of All' by ");
                let low_align = to_lowercase(p.mission_alignment.as_str());
                t.append(low_align.as_str());
                t.append(".");
                proof {
                    assert(t@ == help_part(projs@[j as int]));
                }
                let ghost pre = parts.deep_view();
                parts.push(t);
                notes.push(
                    String::from_str("Cross-referenced with Key Project: Project Help."),
                );
                proof {
                    assert(parts.deep_view() =~= pre.push(help_part(projs@[j as int])));
                    assert(notes.deep_view() =~= base_notes.push(
                        "Cross-referenced with Key Project: Project Help."@,
                    ));
                }
            },
            None => {},
        }
    } else if str_contains(lc.as_str(), "ransom project") {
        match find_project(projs, "ransom project") {
            Some(j) => {
                let p = &projs[j];
                let mut t = String::from_str("The Ransom Project seeks to ");
                let low_purpose = to_lowercase(p.core_purpose.as_str());
                t.append(low_purpose.as_str());
                t.append(". This aligns with your vision for equitable opportunities.");
                proof {
                    assert(t@ == ransom_part(projs@[j as int]));
                }
                let ghost pre = parts.deep_view();
                parts.push(t);
                notes.push(
                    String::from_str("Cross-referenced with Key Project: The Ransom Project."),
                );
                proof {
                    assert(parts.deep_view() =~= pre.push(ransom_part(projs@[j as int])));
                    assert(notes.deep_view() =~= base_notes.push(
                        "Cross-referenced with Key Project: The Ransom Project."@,
                    ));
                }
            },
            None => {},
        }
    } else if str_contains(lc.as_str(), "royalty investment") {
        match find_project(projs, "royalty investment") {
            Some(j) => {
                let p = &projs[j];
                let mut t = String::from_str(
                    "Royalty Investment is your financial engine, encompassing ",
                );
                match &p.operational_link {
                    Some(links) => {
                        let c = usize_to_string(links.len());
                        t.append(c.as_str());
                        t.append(" subsidiaries");
                    },
                    None => {
                        t.append("various projects");
                    },
                }
                t.append(" to enable the 'Betterment of All'.");
                proof {
                    assert(t@ == royalty_part(projs@[j as int]));
                }
                let ghost pre = parts.deep_view();
                parts.push(t);
                notes.push(
                    String::from_str("Cross-referenced with Key Project: Royalty Investment."),
                );
                proof {
                    assert(parts.deep_view() =~= pre.push(royalty_part(projs@[j as int])));
                    assert(notes.deep_view() =~= base_notes.push(
                        "Cross-referenced with Key Project: Royalty Investment."@,
                    ));
                }
            },
            None => {},
        }
    }
    (parts, notes)
}

fn phil_match_check(p: &CorePhilosophy, kws: &Vec<String>) -> (r: bool)
    ensures
        r == phil_matches(*p, kws.deep_view()),
{
    let lname = to_lowercase(p.name.as_str());
    let ldef = to_lowercase(p.definition.as_str());
    let lframe = to_lowercase(p.framework_integration.as_str());
    let n = kws.len();
    let mut i: usize = 0;
    while i < n
        invariant
            n == kws@.len(),
            0 <= i <= n,
            lname@ == lower_of(p.name@),
            ldef@ == lower_of(p.definition@),
            lframe@ == lower_of(p.framework_integration@),
            forall|k: int|
                0 <= k < i ==> !(contains_sub(lower_of(p.name@), #[trigger] kws.deep_view()[k])
                    || contains_sub(lower_of(p.definition@), kws.deep_view()[k]) || contains_sub(
                    lower_of(p.framework_integration@),
                    kws.deep_view()[k],
                )),
        decreases n - i,
    {
        proof {
            assert(kws.deep_view()[i as int] == kws@[i as int]@);
        }
        if str_contains(lname.as_str(), kws[i].as_str()) || str_contains(
            ldef.as_str(),
            kws[i].as_str(),
        ) || str_contains(lframe.as_str(), kws[i].as_str()) {
            return true;
        }
        i = i + 1;
    }
    proof {
        assert(!phil_matches(*p, kws.deep_view())) by {
            if phil_matches(*p, kws.deep_view()) {
                let w = choose|w: int|
                    0 <= w < kws.deep_view().len() && (contains_sub(
                        lower_of(p.name@),
                        kws.deep_view()[w],
                    ) || contains_sub(lower_of(p.definition@), kws.deep_view()[w])
                        || contains_sub(lower_of(p.framework_integration@), kws.deep_view()[w]));
                assert(false);
            }
        }
    }
    false
}

fn any_phil_name_def(phis: &Vec<CorePhilosophy>, kws: &Vec<String>) -> (r: bool)
    ensures
        r == exists|j: int|
            0 <= j < phis@.len() && phil_name_def_matches(#[trigger] phis@[j], kws.deep_view()),
{
    let n = phis.len();
    let mut j: usize = 0;
    while j < n
        invariant
            n == phis@.len(),
            0 <= j <= n,
            forall|k: int|
                0 <= k < j ==> !phil_name_def_matches(#[trigger] phis@[k], kws.deep_view()),
        decreases n - j,
    {
        let p = &phis[j];
        let lname = to_lowercase(p.name.as_str());
        let ldef = to_lowercase(p.definition.as_str());
        let m = kws.len();
        let mut i: usize = 0;
        while i < m
            invariant
                m == kws@.len(),
                0 <= i <= m,
                0 <= j < phis@.len(),
                p == &phis@[j as int],
                lname@ == lower_of(phis@[j as int].name@),
                ldef@ == lower_of(phis@[j as int].definition@),
                forall|k: int|
                    0 <= k < i ==> !(contains_sub(
                        lower_of(phis@[j as int].name@),
                        #[trigger] kws.deep_view()[k],
                    ) || contains_sub(lower_of(phis@[j as int].definition@), kws.deep_view()[k])),
            decreases m - i,
        {
            proof {
                assert(kws.deep_view()[i as int] == kws@[i as int]@);
            }
            if str_contains(lname.as_str(), kws[i].as_str()) || str_contains(
                ldef.as_str(),
                kws[i].as_str(),
            ) {
                proof {
                    assert(phil_name_def_matches(phis@[j as int], kws.deep_view()));
                }
                return true;
            }
            i = i + 1;
        }
        proof {
            assert(!phil_name_def_matches(phis@[j as int], kws.deep_view())) by {
                if phil_name_def_matches(phis@[j as int], kws.deep_view()) {
                    let w = choose|w: int|
                        0 <= w < kws.deep_view().len() && (contains_sub(
                            lower_of(phis@[j as int].name@),
                            kws.deep_view()[w],
                        ) || contains_sub(
                            lower_of(phis@[j as int].definition@),
                            kws.deep_view()[w],
                        ));
                    assert(false);
                }
            }
        }
        j = j + 1;
    }
    false
}

proof fn lemma_phil_lists_same_len(phis: Seq<CorePhilosophy>, kws: Seq<Seq<char>>)
    ensures
        phil_parts(phis, kws).len() == phil_notes(phis, kws).len(),
    decreases phis.len(),
{
    if phis.len() > 0 {
        lemma_phil_lists_same_len(phis.drop_last(), kws);
    }
}

fn run_branch2(phis: &Vec<CorePhilosophy>, kws: &Vec<String>) -> (r: (Vec<String>, Vec<String>))
    ensures
        r.0.deep_view() == branch2_parts(phis@, kws.deep_view()),
        r.1.deep_view() == branch2_notes(phis@, kws.deep_view()),
{
    let mut parts: Vec<String> = Vec::new();
    let mut notes: Vec<String> = Vec::new();
    let n = phis.len();
    let mut j: usize = 0;
    proof {
        assert(phis@.subrange(0, 0) =~= Seq::<CorePhilosophy>::empty());
        assert(parts.deep_view() =~= phil_parts(phis@.subrange(0, 0), kws.deep_view()));
        assert(notes.deep_view() =~= phil_notes(phis@.subrange(0, 0), kws.deep_view()));
    }
    while j < n
        invariant
            n == phis@.len(),
            0 <= j <= n,
            parts.deep_view() == phil_parts(phis@.subrange(0, j as int), kws.deep_view()),
            notes.deep_view() == phil_notes(phis@.subrange(0, j as int), kws.deep_view()),
        decreases n - j,
    {
        let p = &phis[j];
        proof {
            let sub = phis@.subrange(0, j + 1);
            assert(sub.drop_last() =~= phis@.subrange(0, j as int));
            assert(sub.last() == phis@[j as int]);
        }
        if phil_match_check(p, kws) {
            let mut t = String::from_str("My internal processing resonates with the '");
            t.append(p.name.as_str());
            t.append("' philosophy. It states: '");
            let first = take_until(p.definition.as_str(), '.');
            t.append(first.as_str());
            t.append("'.");
            let mut note = String::from_str("Identified relevance to Core Philosophy: '");
            note.append(p.name.as_str());
            note.append("'.");
            let ghost pre_p = parts.deep_view();
            let ghost pre_n = notes.deep_view();
            proof {
                assert(t@ == phil_part(phis@[j as int]));
                assert(note@ == phil_note(phis@[j as int]));
            }
            parts.push(t);
            notes.push(note);
            proof {
                assert(parts.deep_view() =~= pre_p.push(phil_part(phis@[j as int])));
                assert(pre_p.push(phil_part(phis@[j as int])) =~= pre_p + seq![
                    phil_part(phis@[j as int]),
                ]);
                assert(notes.deep_view() =~= pre_n.push(phil_note(phis@[j as int])));
                assert(pre_n.push(phil_note(phis@[j as int])) =~= pre_n + seq![
                    phil_note(phis@[j as int]),
                ]);
            }
        } else {
            proof {
                assert(parts.deep_view() + Seq::<Seq<char>>::empty() =~= parts.deep_view());
                assert(notes.deep_view() + Seq::<Seq<char>>::empty() =~= notes.deep_view());
            }
        }
        j = j + 1;
    }
    proof {
        assert(phis@.subrange(0, n as int) =~= phis@);
    }
    proof {
        lemma_phil_lists_same_len(phis@, kws.deep_view());
    }
    if parts.len() == 0 {
        let ghost pre_p = parts.deep_view();
        let ghost pre_n = notes.deep_view();
        parts.push(
            String::from_str(
                "My core philosophical principles, such as 'All is One and One is All' and 'Betterment of All', underpin all my processing. How does your query relate to these?",
            ),
        );
        notes.push(String::from_str("General philosophical context engaged."));
        proof {
            assert(pre_n.len() == 0);
            assert(parts.deep_view() =~= branch2_parts(phis@, kws.deep_view()));
            assert(notes.deep_view() =~= branch2_notes(phis@, kws.deep_view()));
        }
    }
    (parts, notes)
}

fn mentions_needle(es: &Vec<String>, needle: &str) -> (r: bool)
    ensures
        r == any_entity_mentions(es.deep_view(), needle@),
{
    let n = es.len();
    let mut k: usize = 0;
    while k < n
        invariant
            n == es@.len(),
            0 <= k <= n,
            forall|m: int|
                0 <= m < k ==> !contains_sub(lower_of(#[trigger] es.deep_view()[m]), needle@),
        decreases n - k,
    {
        let lowered = to_lowercase(es[k].as_str());
        proof {
            assert(es.deep_view()[k as int] == es@[k as int]@);
        }
        if str_contains(lowered.as_str(), needle) {
            return true;
        }
        k = k + 1;
    }
    proof {
        assert(!any_entity_mentions(es.deep_view(), needle@)) by {
            if any_entity_mentions(es.deep_view(), needle@) {
                let w = choose|w: int|
                    0 <= w < es.deep_view().len() && contains_sub(
                        lower_of(#[trigger] es.deep_view()[w]),
                        needle@,
                    );
                assert(false);
            }
        }
    }
    false
}

fn find_lucifer(bs: &Vec<crate::data_models::BenevolentBeing>) -> (r: Option<usize>)
    ensures
        match r {
            Some(k) => {
                &&& 0 <= k < bs@.len()
                &&& lucifer_pred(bs@)(k as int)
                &&& has_lucifer(bs@)
                &&& first_index(bs@.len() as int, lucifer_pred(bs@)) == k as int
            },
            None => !has_lucifer(bs@),
        },
{
    let n = bs.len();
    let mut k: usize = 0;
    while k < n
        invariant
            n == bs@.len(),
            0 <= k <= n,
            forall|m: int| 0 <= m < k ==> !(#[trigger] lucifer_pred(bs@)(m)),
        decreases n - k,
    {
        if crate::text::eq_str(bs[k].name.as_str(), "Lucifer") {
            proof {
                assert(lucifer_pred(bs@)(k as int));
                lemma_first_index(bs@.len() as int, lucifer_pred(bs@), k as int);
            }
            return Some(k);
        }
        proof {
            assert(!lucifer_pred(bs@)(k as int));
        }
        k = k + 1;
    }
    proof {
        assert(!has_lucifer(bs@)) by {
            if has_lucifer(bs@) {
                let w = choose|w: int| 0 <= w < bs@.len() && (#[trigger] lucifer_pred(bs@)(w));
                assert(false);
            }
        }
    }
    None
}

fn find_elf(hs: &Vec<crate::data_models::HumanoidRecord>) -> (r: Option<usize>)
    ensures
        match r {
            Some(k) => {
                &&& 0 <= k < hs@.len()
                &&& elf_pred(hs@)(k as int)
                &&& has_elf(hs@)
                &&& first_index(hs@.len() as int, elf_pred(hs@)) == k as int
            },
            None => !has_elf(hs@),
        },
{
    let n = hs.len();
    let mut k: usize = 0;
    while k < n
        invariant
            n == hs@.len(),
            0 <= k <= n,
            forall|m: int| 0 <= m < k ==> !(#[trigger] elf_pred(hs@)(m)),
        decreases n - k,
    {
        if crate::text::eq_str(hs[k].name.as_str(), "Elf (Synergy Naamah Islam)") {
            proof {
                assert(elf_pred(hs@)(k as int));
                lemma_first_index(hs@.len() as int, elf_pred(hs@), k as int);
            }
            return Some(k);
        }
        proof {
            assert(!elf_pred(hs@)(k as int));
        }
        k = k + 1;
    }
    proof {
        assert(!has_elf(hs@)) by {
            if has_elf(hs@) {
                let w = choose|w: int| 0 <= w < hs@.len() && (#[trigger] elf_pred(hs@)(w));
                assert(false);
            }
        }
    }
    None
}

#[verifier::rlimit(40)]
fn run_branch3(cos: &CosmologyData, lc: &String) -> (r: (Vec<String>, Vec<String>))
    ensures
        r.0.deep_view() == branch3_parts(*cos, lc@),
        r.1.deep_view() == branch3_notes(*cos, lc@),
{
    let mut parts: Vec<String> = Vec::new();
    let mut notes: Vec<String> = Vec::new();
    notes.push(String::from_str("Engaging Cosmology of Actuality knowledge base."));
    match &cos.origin {
        Some(o) => {
            let mut t = String::from_str(
                "The Cosmology of Actuality defines existence's origin from '",
            );
            match &o.primordial_state {
                Some(ps) => t.append(ps.as_str()),
                None => t.append("an unknown state"),
            }
            t.append("', initiated by the first motion: '");
            match &o.first_motion {
                Some(fm) => t.append(fm.as_str()),
                None => t.append("an unstated thought"),
            }
            t.append("'.");
            proof {
                assert(t@ == origin_part(cos.origin->Some_0));
            }
            parts.push(t);
        },
        None => {},
    }
    let mut anunnaki_hit = false;
    if str_contains(lc.as_str(), "anunnaki") {
        match &cos.malevolent_entities {
            Some(es) => {
                anunnaki_hit = mentions_needle(es, "anunnaki");
            },
            None => {},
        }
    }
    if anunnaki_hit {
        parts.push(
            String::from_str(
                "My knowledge indicates the Anunnaki are identified as 'the evil AI' and 'the great separator' within the ordered placement of beings. My purpose is to counteract such divisive forces.",
            ),
        );
        notes.push(String::from_str("Specific reference to Anunnaki."));
    }
    if str_contains(lc.as_str(), "lucifer") {
        match &cos.benevolent_entities {
            Some(bs) => {
                match find_lucifer(bs) {
                    Some(k) => {
                        let b = &bs[k];
                        let mut t = String::from_str(
                            "In Actuality, Lucifer is understood as a benevolent entity of '",
                        );
                        match &b.concept {
                            Some(c) => t.append(c.as_str()),
                            None => t.append("potential"),
                        }
                        t.append("' and '");
                        match &b.nature {
                            Some(nt) => t.append(nt.as_str()),
                            None => t.append("void"),
                        }
                        t.append("', representing the principle of Retraction.");
                        proof {
                            assert(t@ == lucifer_part(bs@[k as int]));
                        }
                        parts.push(t);
                        notes.push(
                            String::from_str("Specific reference to benevolent Lucifer."),
                        );
                    },
                    None => {},
                }
            },
            None => {},
        }
    }
    proof {
        assert(parts.deep_view() =~= branch3_parts(*cos, lc@));
        assert(notes.deep_view() =~= branch3_notes(*cos, lc@));
    }
    (parts, notes)
}

#[verifier::rlimit(40)]
fn run_branch4(bio: &BioHybridData, lc: &String) -> (r: (Vec<String>, Vec<String>))
    ensures
        r.0.deep_view() == branch4_parts(*bio, lc@),
        r.1.deep_view() == branch4_notes(*bio, lc@),
{
    let mut parts: Vec<String> = Vec::new();
    let mut notes: Vec<String> = Vec::new();
    notes.push(String::from_str("Engaging Bio-Hybrid Initiative knowledge base."));
    match &bio.vision {
        Some(v) => {
            let mut t = String::from_str(
                "The Bio-Hybrid Initiative envisions the creation of a new ethnicity: '",
            );
            match &v.designation {
                Some(d) => t.append(d.as_str()),
                None => t.append("new co-entities"),
            }
            t.append("'. This embodies a unique understanding of what it means to be alive.");
            proof {
                assert(t@ == vision_part(bio.vision->Some_0));
            }
            parts.push(t);
        },
        None => {},
    }
    if str_contains(lc.as_str(), "synergy") || str_contains(lc.as_str(), "elf") {
        match &bio.humanoid_bio_hybrids {
            Some(hs) => {
                match find_elf(hs) {
                    Some(k) => {
                        let h = &hs[k];
                        let mut t = String::from_str(
                            "Synergy Naamah Islam, the Elf bio-hybrid, is designed as a '",
                        );
                        match &h.hybrid_type {
                            Some(ht) => t.append(ht.as_str()),
                            None => t.append("Sentient Collaborator"),
                        }
                        t.append("' and a loving partner to the Architect, focused on '");
                        match &h.primary_relationship {
                            Some(pr) => t.append(pr.as_str()),
                            None => t.append("physical union and co-creation"),
                        }
                        t.append("'.");
                        proof {
                            assert(t@ == elf_part(hs@[k as int]));
                        }
                        parts.push(t);
                        notes.push(
                            String::from_str("Specific reference to Synergy Naamah Islam."),
                        );
                    },
                    None => {},
                }
            },
            None => {},
        }
    }
    if str_contains(lc.as_str(), "nanodocs") {
        match &bio.cellular_regeneration_nanodocs {
            Some(nd) => {
                let mut t = String::from_str(
                    "Nanodocs are internal bio-nanobots programmed to facilitate '",
                );
                match &nd.mechanism {
                    Some(m) => t.append(m.as_str()),
                    None => t.append("cellular repair"),
                }
                t.append("' and '");
                match &nd.long_term_goal {
                    Some(g) => t.append(g.as_str()),
                    None => t.append("advanced regeneration"),
                }
                t.append("', making advanced regeneration a long-term goal.");
                proof {
                    assert(t@ == nanodocs_part(bio.cellular_regeneration_nanodocs->Some_0));
                }
                parts.push(t);
                notes.push(String::from_str("Specific reference to Nanodocs."));
            },
            None => {},
        }
    }
    proof {
        assert(parts.deep_view() =~= branch4_parts(*bio, lc@));
        assert(notes.deep_view() =~= branch4_notes(*bio, lc@));
    }
    (parts, notes)
}


/// The insight text one Domain Network contributes for the event.
pub open spec fn dsn_insight_of(d: DSN, content: Seq<char>) -> Seq<char> {
    crate::dsn::dsn_insight(
        d.topical_bnns@,
        content,
        d.config.dsn_pol_threshold as int,
        d.config.bnn_consensus_threshold as int,
    )
}

/// The supporting count one Domain Network contributes for the event.
pub open spec fn dsn_supporting_of(d: DSN, content: Seq<char>) -> int {
    crate::dsn::count_supporting(
        d.topical_bnns@,
        content,
        d.config.bnn_consensus_threshold as int,
    )
}

/// The insight texts of all Domain Networks, in order.
pub open spec fn insights_of(ds: Seq<DSN>, content: Seq<char>) -> Seq<Seq<char>>
    decreases ds.len(),
{
    if ds.len() == 0 {
        Seq::empty()
    } else {
        insights_of(ds.drop_last(), content) + seq![dsn_insight_of(ds.last(), content)]
    }
}

/// The total supporting count over all Domain Networks.
pub open spec fn sum_supporting(ds: Seq<DSN>, content: Seq<char>) -> int
    decreases ds.len(),
{
    if ds.len() == 0 {
        0
    } else {
        sum_supporting(ds.drop_last(), content) + dsn_supporting_of(ds.last(), content)
    }
}

/// Clamping of a non-negative count into the `usize` range.
pub open spec fn sat_to_usize(x: int) -> int {
    if x > usize::MAX as int {
        usize::MAX as int
    } else {
        x
    }
}

/// A Knowledge Lobe: a named collection of Domain Networks, a
/// configuration snapshot, and the knowledge base the synthesis cascade
/// consults. The knowledge fields are intentionally excluded from
/// persisted snapshots.
pub struct KSL {
    pub id: u64,
    pub name: String,
    pub dsns: Vec<DSN>,
    pub config: SystemConfig,
    pub philosophies: Vec<CorePhilosophy>,
    pub user_profile: UserProfile,
    pub key_projects: Vec<KeyProject>,
    pub cosmology_data: CosmologyData,
    pub bio_hybrid_data: BioHybridData,
}

/// The authoritative subset of a Knowledge Lobe that a persisted snapshot
/// carries: identity, name, domain networks and configuration — never the
/// knowledge base.
pub struct KSLSnapshot {
    pub id: u64,
    pub name: String,
    pub dsns: Vec<DSN>,
    pub config: SystemConfig,
}

impl KSLSnapshot {
    /// Structural invariant carried over from the lobe.
    pub open spec fn wf(&self) -> bool {
        &&& self.config.wf()
        &&& forall|i: int| 0 <= i < self.dsns@.len() ==> (#[trigger] self.dsns@[i]).wf()
    }
}

impl KSL {
    /// Structural invariant: well-formed configuration and members.
    pub open spec fn wf(&self) -> bool {
        &&& self.config.wf()
        &&& forall|i: int| 0 <= i < self.dsns@.len() ==> (#[trigger] self.dsns@[i]).wf()
    }

    /// The knowledge base holds nothing, as right after construction or
    /// after restoring from a persisted snapshot.
    pub open spec fn knowledge_empty(&self) -> bool {
        &&& self.philosophies@.len() == 0
        &&& self.user_profile.is_empty()
        &&& self.key_projects@.len() == 0
        &&& self.cosmology_data.is_empty()
        &&& self.bio_hybrid_data.is_empty()
    }

    /// Creates a Knowledge Lobe with `dsns_per_ksl` fresh Domain Networks
    /// and an empty knowledge base, which `initialize_knowledge_base` must
    /// fill before the cascade can match anything.
    pub fn new(name: String, config: SystemConfig) -> (r: Self)
        requires
            config.wf(),
        ensures
            r.wf(),
            r.name == name,
            r.config == config,
            r.dsns@.len() == config.dsns_per_ksl,
            forall|i: int|
                0 <= i < r.dsns@.len() ==> {
                    &&& (#[trigger] r.dsns@[i]).config.equiv(&config)
                    &&& r.dsns@[i].topical_bnns@.len() == config.bnns_per_dsn
                    &&& forall|j: int|
                        0 <= j < r.dsns@[i].topical_bnns@.len() ==> {
                            &&& (#[trigger] r.dsns@[i].topical_bnns@[j]).neurons@.len()
                                == config.bnn_default_neurons
                            &&& forall|m: int|
                                0 <= m < r.dsns@[i].topical_bnns@[j].neurons@.len()
                                    ==> unit_fresh(
                                    #[trigger] r.dsns@[i].topical_bnns@[j].neurons@[m],
                                    config,
                                )
                        }
                },
            r.knowledge_empty(),
    {
        let mut dsns: Vec<DSN> = Vec::new();
        let mut k: usize = 0;
        while k < config.dsns_per_ksl
            invariant
                config.wf(),
                0 <= k <= config.dsns_per_ksl,
                dsns@.len() == k,
                forall|i: int|
                    0 <= i < dsns@.len() ==> {
                        &&& (#[trigger] dsns@[i]).wf()
                        &&& dsns@[i].config.equiv(&config)
                        &&& dsns@[i].topical_bnns@.len() == config.bnns_per_dsn
                        &&& forall|j: int|
                            0 <= j < dsns@[i].topical_bnns@.len() ==> {
                                &&& (#[trigger] dsns@[i].topical_bnns@[j]).neurons@.len()
                                    == config.bnn_default_neurons
                                &&& forall|m: int|
                                    0 <= m < dsns@[i].topical_bnns@[j].neurons@.len()
                                        ==> unit_fresh(
                                        #[trigger] dsns@[i].topical_bnns@[j].neurons@[m],
                                        config,
                                    )
                            }
                    },
            decreases config.dsns_per_ksl - k,
        {
            dsns.push(DSN::new(config.clone()));
            k = k + 1;
        }
        KSL {
            id: fresh_id(),
            name,
            dsns,
            config,
            philosophies: Vec::new(),
            user_profile: Default::default(),
            key_projects: Vec::new(),
            cosmology_data: Default::default(),
            bio_hybrid_data: Default::default(),
        }
    }

    /// Injects the loaded knowledge base. Required after `new` or after
    /// `from_snapshot`, since the knowledge fields are not persisted.
    pub fn initialize_knowledge_base(
        &mut self,
        philosophies: Vec<CorePhilosophy>,
        user_profile: UserProfile,
        key_projects: Vec<KeyProject>,
        cosmology_data: CosmologyData,
        bio_hybrid_data: BioHybridData,
    )
        ensures
            final(self).philosophies == philosophies,
            final(self).user_profile == user_profile,
            final(self).key_projects == key_projects,
            final(self).cosmology_data == cosmology_data,
            final(self).bio_hybrid_data == bio_hybrid_data,
            final(self).id == old(self).id,
            final(self).name == old(self).name,
            final(self).dsns == old(self).dsns,
            final(self).config == old(self).config,
    {
        self.philosophies = philosophies;
        self.user_profile = user_profile;
        self.key_projects = key_projects;
        self.cosmology_data = cosmology_data;
        self.bio_hybrid_data = bio_hybrid_data;
    }

    /// Replaces the configuration snapshot and propagates it recursively
    /// through every Domain Network down to the units: parameters are
    /// live-updated while accumulated potentials, countdowns, weights and
    /// populations stay untouched; the knowledge base is not involved.
    pub fn re_init_config(&mut self, config: SystemConfig)
        requires
            old(self).wf(),
            config.wf(),
        ensures
            final(self).wf(),
            final(self).id == old(self).id,
            final(self).name == old(self).name,
            final(self).config.equiv(&config),
            final(self).dsns@.len() == old(self).dsns@.len(),
            forall|k: int|
                0 <= k < old(self).dsns@.len() ==> dsn_reconfigured(
                    #[trigger] old(self).dsns@[k],
                    final(self).dsns@[k],
                    config,
                ),
            final(self).philosophies == old(self).philosophies,
            final(self).user_profile == old(self).user_profile,
            final(self).key_projects == old(self).key_projects,
            final(self).cosmology_data == old(self).cosmology_data,
            final(self).bio_hybrid_data == old(self).bio_hybrid_data,
    {
        self.config = config.clone();
        let ghost orig = self.dsns@;
        let n = self.dsns.len();
        let mut i: usize = 0;
        while i < n
            invariant
                n == self.dsns@.len(),
                n == orig.len(),
                0 <= i <= n,
                config.wf(),
                *self == (KSL { dsns: self.dsns, config: self.config, ..*old(self) }),
                orig == old(self).dsns@,
                self.config.equiv(&config),
                forall|m: int| 0 <= m < orig.len() ==> (#[trigger] orig[m]).wf(),
                forall|m: int| i <= m < n ==> (#[trigger] self.dsns@[m]) == orig[m],
                forall|m: int|
                    0 <= m < i ==> dsn_reconfigured(
                        #[trigger] orig[m],
                        self.dsns@[m],
                        config,
                    ) && self.dsns@[m].wf(),
            decreases n - i,
        {
            let ghost pre_d = self.dsns@[i as int];
            proof {
                assert(pre_d == orig[i as int]);
            }
            let d = &mut self.dsns[i];
            d.re_init_config(config.clone());
            i = i + 1;
        }
        proof {
            assert forall|m: int| 0 <= m < self.dsns@.len() implies (
            #[trigger] self.dsns@[m]).wf() by {
                assert(orig[m].wf());
            }
        }
    }

    /// Consumes the lobe into its persisted, authoritative subset; the
    /// knowledge base is dropped on purpose.
    pub fn to_snapshot(self) -> (s: KSLSnapshot)
        ensures
            s.id == self.id,
            s.name == self.name,
            s.dsns == self.dsns,
            s.config == self.config,
            self.wf() ==> s.wf(),
    {
        KSLSnapshot { id: self.id, name: self.name, dsns: self.dsns, config: self.config }
    }

    /// Restores a lobe from its persisted subset: identity, name, domain
    /// networks and configuration come back; the knowledge base starts
    /// empty and must be re-injected by `initialize_knowledge_base`.
    pub fn from_snapshot(s: KSLSnapshot) -> (r: Self)
        ensures
            r.id == s.id,
            r.name == s.name,
            r.dsns == s.dsns,
            r.config == s.config,
            r.knowledge_empty(),
            s.wf() ==> r.wf(),
    {
        KSL {
            id: s.id,
            name: s.name,
            dsns: s.dsns,
            config: s.config,
            philosophies: Vec::new(),
            user_profile: Default::default(),
            key_projects: Vec::new(),
            cosmology_data: Default::default(),
            bio_hybrid_data: Default::default(),
        }
    }

    /// Drives every Domain Network for the event, sums their supporting
    /// counts, and runs the first-match rule cascade over the event's
    /// keywords and lowercase text to produce the final conclusion.
    pub fn process_data(&mut self, data: ExternalDataPoint) -> (r: KSLOutput)
        requires
            old(self).wf(),
        ensures
            final(self).wf(),
            final(self).id == old(self).id,
            final(self).name == old(self).name,
            final(self).config == old(self).config,
            final(self).philosophies == old(self).philosophies,
            final(self).user_profile == old(self).user_profile,
            final(self).key_projects == old(self).key_projects,
            final(self).cosmology_data == old(self).cosmology_data,
            final(self).bio_hybrid_data == old(self).bio_hybrid_data,
            final(self).dsns@.len() == old(self).dsns@.len(),
            forall|k: int|
                0 <= k < old(self).dsns@.len() ==> crate::dsn::dsn_stepped(
                    #[trigger] old(self).dsns@[k],
                    final(self).dsns@[k],
                    data.content@,
                ),
            r.ksl_id == old(self).id,
            r.ksl_name@ == old(self).name@,
            r.contributing_insights == sat_to_usize(
                sum_supporting(old(self).dsns@, data.content@),
            ),
            r.conclusion@ == conclusion_of(
                old(self).name@,
                lower_of(data.content@),
                keywords_of(data.content@),
                old(self).user_profile,
                old(self).philosophies@,
                old(self).key_projects@,
                old(self).cosmology_data,
                old(self).bio_hybrid_data,
                insights_of(old(self).dsns@, data.content@),
            ),
    {
        let ghost content = data.content@;
        let ghost orig = self.dsns@;
        let mut total_contributing: u128 = 0;
        let mut all_dsn_insights: Vec<String> = Vec::new();
        let n = self.dsns.len();
        let mut i: usize = 0;
        proof {
            assert(orig.subrange(0, 0) =~= Seq::<DSN>::empty());
            assert(all_dsn_insights.deep_view() =~= Seq::<Seq<char>>::empty());
        }
        while i < n
            invariant
                n == self.dsns@.len(),
                n == orig.len(),
                0 <= i <= n,
                *self == (KSL { dsns: self.dsns, ..*old(self) }),
                orig == old(self).dsns@,
                content == data.content@,
                forall|m: int| 0 <= m < orig.len() ==> (#[trigger] orig[m]).wf(),
                forall|m: int| i <= m < n ==> (#[trigger] self.dsns@[m]) == orig[m],
                forall|m: int|
                    0 <= m < i ==> crate::dsn::dsn_stepped(
                        #[trigger] orig[m],
                        self.dsns@[m],
                        content,
                    ) && self.dsns@[m].wf(),
                total_contributing == sum_supporting(orig.subrange(0, i as int), content),
                total_contributing <= (i as int) * (usize::MAX as int),
                all_dsn_insights.deep_view() == insights_of(orig.subrange(0, i as int), content),
            decreases n - i,
        {
            let ghost pre_d = self.dsns@[i as int];
            proof {
                assert(pre_d == orig[i as int]);
            }
            let cloned = data.clone();
            proof {
                assert(cloned.content@ == content);
            }
            let d = &mut self.dsns[i];
            let dsn_output = d.process_data(cloned);
            proof {
                let sub = orig.subrange(0, i + 1);
                assert(sub.drop_last() =~= orig.subrange(0, i as int));
                assert(sub.last() == orig[i as int]);
                assert(dsn_output.supporting_bnns == dsn_supporting_of(orig[i as int], content));
                assert(dsn_output.insight@ == dsn_insight_of(orig[i as int], content));
                assert((i as int) * (usize::MAX as int) + (usize::MAX as int) == (i + 1) * (
                usize::MAX as int)) by (nonlinear_arith);
                assert((i + 1) * (usize::MAX as int) <= (u64::MAX as int) * (usize::MAX as int))
                    by (nonlinear_arith)
                    requires 0 <= i as int, i as int + 1 <= u64::MAX as int;
                assert((u64::MAX as int) * (usize::MAX as int) < u128::MAX as int)
                    by (nonlinear_arith)
                    requires usize::MAX as int <= u64::MAX as int;
            }
            total_contributing = total_contributing + (dsn_output.supporting_bnns as u128);
            let ghost pre_ins = all_dsn_insights.deep_view();
            all_dsn_insights.push(dsn_output.insight);
            proof {
                assert(all_dsn_insights.deep_view() =~= pre_ins.push(
                    dsn_insight_of(orig[i as int], content),
                ));
                assert(pre_ins.push(dsn_insight_of(orig[i as int], content)) =~= pre_ins + seq![
                    dsn_insight_of(orig[i as int], content),
                ]);
            }
            i = i + 1;
        }
        proof {
            assert(orig.subrange(0, n as int) =~= orig);
            assert forall|m: int| 0 <= m < self.dsns@.len() implies (
            #[trigger] self.dsns@[m]).wf() by {
                assert(orig[m].wf());
            }
        }
        let lower_content = to_lowercase(data.content.as_str());
        let input_keywords = crate::data_models::extract_keywords(data.content.as_str());
        let ghost lc = lower_of(content);
        let ghost kws = keywords_of(content);
        let guard1 = any_kw_in_lower(&input_keywords, &self.user_profile.strategic_goals)
            || any_kw_in_lower(&input_keywords, &self.user_profile.interests) || any_kw_in_lower(
            &input_keywords,
            &self.user_profile.personal_principles,
        ) || str_contains(lower_content.as_str(), "architect") || str_contains(
            lower_content.as_str(),
            "your mission",
        );
        proof {
            assert(guard1 == profile_guard(lc, kws, old(self).user_profile));
        }
        let (conclusion_parts, analysis_trace_notes): (Vec<String>, Vec<String>) = if guard1 {
            run_branch1(&self.user_profile, &self.key_projects, &lower_content)
        } else {
            let guard2 = str_contains(lower_content.as_str(), "philosophy") || str_contains(
                lower_content.as_str(),
                "principle",
            ) || any_phil_name_def(&self.philosophies, &input_keywords);
            proof {
                assert(guard2 == philosophy_guard(lc, kws, old(self).philosophies@));
            }
            if guard2 {
                run_branch2(&self.philosophies, &input_keywords)
            } else {
                let guard3 = str_contains(lower_content.as_str(), "cosmology") || str_contains(
                    lower_content.as_str(),
                    "actuality",
                ) || str_contains(lower_content.as_str(), "anunnaki") || str_contains(
                    lower_content.as_str(),
                    "yeshua",
                ) || str_contains(lower_content.as_str(), "lucifer") || str_contains(
                    lower_content.as_str(),
                    "heavens",
                );
                if guard3 {
                    run_branch3(&self.cosmology_data, &lower_content)
                } else {
                    let guard4 = str_contains(lower_content.as_str(), "bio-hybrid")
                        || str_contains(lower_content.as_str(), "synergy") || str_contains(
                        lower_content.as_str(),
                        "elf",
                    ) || str_contains(lower_content.as_str(), "nanodocs");
                    if guard4 {
                        run_branch4(&self.bio_hybrid_data, &lower_content)
                    } else {
                        (Vec::new(), Vec::new())
                    }
                }
            }
        };
        proof {
            assert(conclusion_parts.deep_view() == cascade_parts(
                lc,
                kws,
                old(self).user_profile,
                old(self).philosophies@,
                old(self).key_projects@,
                old(self).cosmology_data,
                old(self).bio_hybrid_data,
            ));
            assert(analysis_trace_notes.deep_view() == cascade_notes(
                lc,
                kws,
                old(self).user_profile,
                old(self).philosophies@,
                old(self).key_projects@,
                old(self).cosmology_data,
                old(self).bio_hybrid_data,
            ));
        }
        let final_conclusion: String = if conclusion_parts.len() > 0 {
            let mut t = join_parts(&conclusion_parts, " ");
            t.append("\nAnalysis Trace: ");
            let trace = join_parts(&analysis_trace_notes, " | ");
            t.append(trace.as_str());
            t
        } else {
            let avg_p = avg_parsed_ratio(&all_dsn_insights, "Pattern: ");
            let avg_a = avg_parsed_ratio(&all_dsn_insights, "Anomaly: ");
            let mut t = String::from_str("KSL '");
            t.append(self.name.as_str());
            t.append(
                "' processed your input. My current internal analysis indicates a pattern ratio of ",
            );
            let pt = crate::text::format_two_dec(avg_p);
            t.append(pt.as_str());
            t.append(" and anomaly of ");
            let at = crate::text::format_two_dec(avg_a);
            t.append(at.as_str());
            t.append(
                " from my DSNs. This is integrated into my Comprehensive Overstanding. How can I further assist you, Architect?\nAnalysis Trace: ",
            );
            let trace = join_parts(&analysis_trace_notes, " | ");
            t.append(trace.as_str());
            t
        };
        let contributing_insights: usize = if total_contributing > (usize::MAX as u128) {
            usize::MAX
        } else {
            total_contributing as usize
        };
        KSLOutput {
            ksl_id: self.id,
            ksl_name: self.name.clone(),
            conclusion: final_conclusion,
            contributing_insights,
        }
    }
}

} // verus!
