//! The Domain Network: aggregates several Topic Networks, averages their
//! ratios, counts consensus support, and emits one of four insight
//! templates together with a per-network analysis summary.

use vstd::prelude::*;
use crate::config::SystemConfig;
use crate::data_models::{DSNOutput, ExternalDataPoint};
use crate::fixed::SCALE;
use crate::text::{dec_str, format_two_dec, two_dec_str, u64_to_string, usize_to_string};
use crate::topical_bnn::{bnn_anomaly_of, bnn_pattern_of, bnn_reconfigured, bnn_stepped, unit_fresh, TopicalBNN};
use crate::trusted::fresh_id;
use vstd::string::StringExecFns;

verus! {

/// Sum of the pattern ratios the topic networks report for this content.
pub open spec fn sum_pattern(bs: Seq<TopicalBNN>, content: Seq<char>) -> int
    decreases bs.len(),
{
    if bs.len() == 0 {
        0
    } else {
        sum_pattern(bs.drop_last(), content) + bnn_pattern_of(bs.last(), content)
    }
}

/// Sum of the anomaly ratios the topic networks report for this content.
pub open spec fn sum_anomaly(bs: Seq<TopicalBNN>, content: Seq<char>) -> int
    decreases bs.len(),
{
    if bs.len() == 0 {
        0
    } else {
        sum_anomaly(bs.drop_last(), content) + bnn_anomaly_of(bs.last(), content)
    }
}

/// How many topic networks report a pattern ratio above the consensus
/// threshold.
pub open spec fn count_supporting(bs: Seq<TopicalBNN>, content: Seq<char>, threshold: int) -> int
    decreases bs.len(),
{
    if bs.len() == 0 {
        0
    } else {
        count_supporting(bs.drop_last(), content, threshold) + if bnn_pattern_of(
            bs.last(),
            content,
        ) > threshold {
            1int
        } else {
            0int
        }
    }
}

pub proof fn lemma_ratio_sums_bounded(bs: Seq<TopicalBNN>, content: Seq<char>)
    ensures
        0 <= sum_pattern(bs, content) <= bs.len() * (SCALE as int),
        0 <= sum_anomaly(bs, content) <= bs.len() * (SCALE as int),
        0 <= count_supporting(bs, content, 0) <= bs.len(),
    decreases bs.len(),
{
    if bs.len() > 0 {
        lemma_ratio_sums_bounded(bs.drop_last(), content);
        crate::topical_bnn::lemma_bnn_ratios_bounded(bs.last(), content);
        assert((bs.len() - 1) * (SCALE as int) + SCALE == bs.len() * (SCALE as int))
            by (nonlinear_arith);
    }
}

pub proof fn lemma_count_supporting_bound(bs: Seq<TopicalBNN>, content: Seq<char>, threshold: int)
    ensures
        0 <= count_supporting(bs, content, threshold) <= bs.len(),
    decreases bs.len(),
{
    if bs.len() > 0 {
        lemma_count_supporting_bound(bs.drop_last(), content, threshold);
    }
}

/// The average pattern ratio, zero for an empty domain.
pub open spec fn avg_pattern(bs: Seq<TopicalBNN>, content: Seq<char>) -> int {
    if bs.len() == 0 {
        0
    } else {
        sum_pattern(bs, content) / bs.len() as int
    }
}

/// The average anomaly ratio, zero for an empty domain.
pub open spec fn avg_anomaly(bs: Seq<TopicalBNN>, content: Seq<char>) -> int {
    if bs.len() == 0 {
        0
    } else {
        sum_anomaly(bs, content) / bs.len() as int
    }
}

/// The per-network summary line: identifier and both ratios with two
/// decimal places.
pub open spec fn bnn_summary(b: TopicalBNN, content: Seq<char>) -> Seq<char> {
    "BNN "@ + dec_str(b.id as int) + ": Anomaly "@ + two_dec_str(bnn_anomaly_of(b, content))
        + ", Pattern "@ + two_dec_str(bnn_pattern_of(b, content))
}

/// The summaries of all topic networks joined with `"; "`.
pub open spec fn bnn_summaries(bs: Seq<TopicalBNN>, content: Seq<char>) -> Seq<char>
    decreases bs.len(),
{
    if bs.len() == 0 {
        Seq::empty()
    } else if bs.len() == 1 {
        bnn_summary(bs[0], content)
    } else {
        bnn_summaries(bs.drop_last(), content) + "; "@ + bnn_summary(bs.last(), content)
    }
}

/// The insight template chosen from the average ratios: high anomaly with
/// low pattern, strong coherence, a mixed signal, or moderate relevance.
pub open spec fn insight_text(avg_a: int, avg_p: int, pol_threshold: int) -> Seq<char> {
    if avg_a > pol_threshold && avg_p < 200_000 {
        "High semantic anomaly detected (Ratio: "@ + two_dec_str(avg_a)
            + "). Indicates potential novel pattern or deviation from established data structures relevant to this domain."@
    } else if avg_p > pol_threshold && avg_a < 300_000 {
        "Strong semantic coherence observed (Pattern Ratio: "@ + two_dec_str(avg_p)
            + "). Data aligns well with established patterns within this domain, indicating high relevance and understanding."@
    } else if avg_p > 500_000 && avg_a > 500_000 {
        "Mixed semantic signal (Pattern: "@ + two_dec_str(avg_p) + ", Anomaly: "@ + two_dec_str(
            avg_a,
        ) + "). Contains elements of known patterns but also significant novel or conflicting data. Requires deeper KSL synthesis."@
    } else {
        "Moderate semantic relevance detected (Anomaly: "@ + two_dec_str(avg_a) + ", Pattern: "@
            + two_dec_str(avg_p) + "). Further contextual analysis at KSL level is recommended."@
    }
}

/// The full insight a Domain Network emits: the chosen template, the
/// supporting count over the total, and the bracketed summary list.
pub open spec fn dsn_insight(bs: Seq<TopicalBNN>, content: Seq<char>, pol_threshold: int,
    consensus: int) -> Seq<char> {
    insight_text(avg_anomaly(bs, content), avg_pattern(bs, content), pol_threshold)
        + "\nSupporting BNNs: "@ + dec_str(count_supporting(bs, content, consensus)) + "/"@
        + dec_str(bs.len() as int) + ". BNN Analysis: ["@ + bnn_summaries(bs, content) + "]"@
}

/// Relation between a Domain Network's state before and after a
/// reconfiguration: identity and membership are kept, the snapshot is
/// replaced, and every contained Topic Network is reconfigured in turn —
/// new unit parameters, untouched potentials, countdowns and weights.
pub open spec fn dsn_reconfigured(pre: DSN, post: DSN, c: SystemConfig) -> bool {
    &&& post.id == pre.id
    &&& post.config.equiv(&c)
    &&& post.topical_bnns@.len() == pre.topical_bnns@.len()
    &&& forall|k: int|
        0 <= k < pre.topical_bnns@.len() ==> bnn_reconfigured(
            #[trigger] pre.topical_bnns@[k],
            post.topical_bnns@[k],
            c,
        )
}

/// Relation between a Domain Network's state before and after processing
/// one event: identity and configuration are kept, and every Topic
/// Network has stepped once for the event.
pub open spec fn dsn_stepped(pre: DSN, post: DSN, content: Seq<char>) -> bool {
    &&& post.id == pre.id
    &&& post.config == pre.config
    &&& post.topical_bnns@.len() == pre.topical_bnns@.len()
    &&& forall|k: int|
        0 <= k < pre.topical_bnns@.len() ==> bnn_stepped(
            #[trigger] pre.topical_bnns@[k],
            post.topical_bnns@[k],
            content,
        )
}

/// A Domain Network: an ordered collection of Topic Networks and a
/// configuration snapshot.
pub struct DSN {
    pub id: u64,
    pub topical_bnns: Vec<TopicalBNN>,
    pub config: SystemConfig,
}

impl DSN {
    /// Structural invariant: well-formed configuration and members.
    pub open spec fn wf(&self) -> bool {
        &&& self.config.wf()
        &&& forall|i: int|
            0 <= i < self.topical_bnns@.len() ==> (#[trigger] self.topical_bnns@[i]).wf()
    }

    /// Creates a Domain Network with `bnns_per_dsn` fresh Topic Networks.
    pub fn new(config: SystemConfig) -> (r: Self)
        requires
            config.wf(),
        ensures
            r.wf(),
            r.config == config,
            r.topical_bnns@.len() == config.bnns_per_dsn,
            forall|i: int|
                0 <= i < r.topical_bnns@.len() ==> {
                    &&& (#[trigger] r.topical_bnns@[i]).neurons@.len()
                        == config.bnn_default_neurons
                    &&& r.topical_bnns@[i].config.equiv(&config)
                    &&& forall|j: int|
                        0 <= j < r.topical_bnns@[i].neurons@.len() ==> unit_fresh(
                            #[trigger] r.topical_bnns@[i].neurons@[j],
                            config,
                        )
                },
    {
        let mut topical_bnns: Vec<TopicalBNN> = Vec::new();
        let mut k: usize = 0;
        while k < config.bnns_per_dsn
            invariant
                config.wf(),
                0 <= k <= config.bnns_per_dsn,
                topical_bnns@.len() == k,
                forall|i: int|
                    0 <= i < topical_bnns@.len() ==> {
                        &&& (#[trigger] topical_bnns@[i]).wf()
                        &&& topical_bnns@[i].neurons@.len() == config.bnn_default_neurons
                        &&& topical_bnns@[i].config.equiv(&config)
                        &&& forall|j: int|
                            0 <= j < topical_bnns@[i].neurons@.len() ==> unit_fresh(
                                #[trigger] topical_bnns@[i].neurons@[j],
                                config,
                            )
                    },
            decreases config.bnns_per_dsn - k,
        {
            topical_bnns.push(TopicalBNN::new(config.clone()));
            k = k + 1;
        }
        DSN { id: fresh_id(), topical_bnns, config }
    }

    /// Replaces the configuration snapshot and propagates it to every
    /// contained Topic Network, live-updating unit parameters without
    /// resetting accumulated potentials, countdowns or weights.
    pub fn re_init_config(&mut self, config: SystemConfig)
        requires
            old(self).wf(),
            config.wf(),
        ensures
            final(self).wf(),
            dsn_reconfigured(*old(self), *final(self), config),
    {
        self.config = config.clone();
        let ghost orig = self.topical_bnns@;
        let n = self.topical_bnns.len();
        let mut i: usize = 0;
        while i < n
            invariant
                n == self.topical_bnns@.len(),
                n == orig.len(),
                0 <= i <= n,
                config.wf(),
                *self == (DSN { topical_bnns: self.topical_bnns, config: self.config, ..*old(self) }),
                orig == old(self).topical_bnns@,
                self.config.equiv(&config),
                forall|m: int| 0 <= m < orig.len() ==> (#[trigger] orig[m]).wf(),
                forall|m: int| i <= m < n ==> (#[trigger] self.topical_bnns@[m]) == orig[m],
                forall|m: int|
                    0 <= m < i ==> bnn_reconfigured(
                        #[trigger] orig[m],
                        self.topical_bnns@[m],
                        config,
                    ) && self.topical_bnns@[m].wf(),
            decreases n - i,
        {
            let ghost pre_b = self.topical_bnns@[i as int];
            proof {
                assert(pre_b == orig[i as int]);
            }
            let b = &mut self.topical_bnns[i];
            b.re_init_config(config.clone());
            i = i + 1;
        }
        proof {
            assert forall|m: int| 0 <= m < self.topical_bnns@.len() implies (
            #[trigger] self.topical_bnns@[m]).wf() by {
                assert(orig[m].wf());
            }
        }
    }

    /// Drives every Topic Network once for the event, accumulates their
    /// ratios and support, and emits the aggregated insight text.
    pub fn process_data(&mut self, data: ExternalDataPoint) -> (r: DSNOutput)
        requires
            old(self).wf(),
        ensures
            final(self).wf(),
            final(self).id == old(self).id,
            final(self).config == old(self).config,
            final(self).topical_bnns@.len() == old(self).topical_bnns@.len(),
            r.dsn_id == old(self).id,
            r.supporting_bnns == count_supporting(
                old(self).topical_bnns@,
                data.content@,
                old(self).config.bnn_consensus_threshold as int,
            ),
            r.insight@ == dsn_insight(
                old(self).topical_bnns@,
                data.content@,
                old(self).config.dsn_pol_threshold as int,
                old(self).config.bnn_consensus_threshold as int,
            ),
            forall|k: int|
                0 <= k < old(self).topical_bnns@.len() ==> bnn_stepped(
                    #[trigger] old(self).topical_bnns@[k],
                    final(self).topical_bnns@[k],
                    data.content@,
                ),
            dsn_stepped(*old(self), *final(self), data.content@),
    {
        let ghost content = data.content@;
        let ghost orig = self.topical_bnns@;
        let ghost consensus = self.config.bnn_consensus_threshold as int;
        let mut total_anomaly_ratio: u128 = 0;
        let mut total_pattern_ratio: u128 = 0;
        let mut supporting_bnns_count_from_bnns: usize = 0;
        let mut bnn_analysis_summaries = String::new();
        let n = self.topical_bnns.len();
        let mut i: usize = 0;
        proof {
            assert(orig.subrange(0, 0) =~= Seq::<TopicalBNN>::empty());
        }
        while i < n
            invariant
                n == self.topical_bnns@.len(),
                n == orig.len(),
                0 <= i <= n,
                *self == (DSN { topical_bnns: self.topical_bnns, ..*old(self) }),
                orig == old(self).topical_bnns@,
                content == data.content@,
                consensus == self.config.bnn_consensus_threshold as int,
                forall|m: int| 0 <= m < orig.len() ==> (#[trigger] orig[m]).wf(),
                forall|m: int| i <= m < n ==> (#[trigger] self.topical_bnns@[m]) == orig[m],
                forall|m: int|
                    0 <= m < i ==> bnn_stepped(
                        #[trigger] orig[m],
                        self.topical_bnns@[m],
                        content,
                    ) && self.topical_bnns@[m].wf(),
                total_anomaly_ratio == sum_anomaly(orig.subrange(0, i as int), content),
                total_pattern_ratio == sum_pattern(orig.subrange(0, i as int), content),
                supporting_bnns_count_from_bnns == count_supporting(
                    orig.subrange(0, i as int),
                    content,
                    consensus,
                ),
                supporting_bnns_count_from_bnns <= i,
                bnn_analysis_summaries@ == bnn_summaries(orig.subrange(0, i as int), content),
            decreases n - i,
        {
            let ghost pre_b = self.topical_bnns@[i as int];
            proof {
                assert(pre_b == orig[i as int]);
            }
            let cloned = data.clone();
            proof {
                assert(cloned.content@ == content);
            }
            let b = &mut self.topical_bnns[i];
            let result = b.process_data(cloned);
            proof {
                let sub = orig.subrange(0, i + 1);
                assert(sub.drop_last() =~= orig.subrange(0, i as int));
                assert(sub.last() == orig[i as int]);
                crate::topical_bnn::lemma_bnn_ratios_bounded(orig[i as int], content);
                lemma_ratio_sums_bounded(orig.subrange(0, i as int), content);
                assert(result.anomaly_ratio == bnn_anomaly_of(orig[i as int], content));
                assert(result.pattern_ratio == bnn_pattern_of(orig[i as int], content));
                assert(0 <= result.anomaly_ratio <= SCALE);
                assert(0 <= result.pattern_ratio <= SCALE);
                assert(orig.subrange(0, i as int).len() == i as int);
                assert(total_anomaly_ratio <= (i as int) * (SCALE as int));
                assert(total_pattern_ratio <= (i as int) * (SCALE as int));
                assert((i as int) * (SCALE as int) + SCALE <= (n as int) * (SCALE as int))
                    by (nonlinear_arith)
                    requires 0 <= i as int, i as int + 1 <= n as int, SCALE > 0;
                assert((n as int) * (SCALE as int) < 0x1_0000_0000_0000_0000_0000_0000)
                    by (nonlinear_arith)
                    requires 0 <= n as int <= u64::MAX as int, SCALE == 1_000_000;
            }
            total_anomaly_ratio = total_anomaly_ratio + (result.anomaly_ratio as u128);
            total_pattern_ratio = total_pattern_ratio + (result.pattern_ratio as u128);
            if i > 0 {
                bnn_analysis_summaries.append("; ");
            }
            bnn_analysis_summaries.append("BNN ");
            let id_text = u64_to_string(result.bnn_id);
            bnn_analysis_summaries.append(id_text.as_str());
            bnn_analysis_summaries.append(": Anomaly ");
            let a_text = format_two_dec(result.anomaly_ratio);
            bnn_analysis_summaries.append(a_text.as_str());
            bnn_analysis_summaries.append(", Pattern ");
            let p_text = format_two_dec(result.pattern_ratio);
            bnn_analysis_summaries.append(p_text.as_str());
            proof {
                assert(bnn_analysis_summaries@ =~= bnn_summaries(
                    orig.subrange(0, i + 1),
                    content,
                ));
            }
            if result.pattern_ratio > self.config.bnn_consensus_threshold {
                supporting_bnns_count_from_bnns = supporting_bnns_count_from_bnns + 1;
            }
            i = i + 1;
        }
        proof {
            assert(orig.subrange(0, n as int) =~= orig);
            lemma_ratio_sums_bounded(orig, content);
            assert forall|m: int| 0 <= m < self.topical_bnns@.len() implies (
            #[trigger] self.topical_bnns@[m]).wf() by {
                assert(orig[m].wf());
            }
        }
        let (avg_anomaly_ratio, avg_pattern_ratio): (i64, i64) = if n > 0 {
            let na = total_anomaly_ratio / (n as u128);
            let np = total_pattern_ratio / (n as u128);
            proof {
                let sa = sum_anomaly(orig, content) as int;
                let sp = sum_pattern(orig, content) as int;
                let ni = n as int;
                assert(ni * (SCALE as int) / ni == SCALE) by (nonlinear_arith)
                    requires ni > 0;
                vstd::arithmetic::div_mod::lemma_div_is_ordered(sa, ni * (SCALE as int), ni);
                vstd::arithmetic::div_mod::lemma_div_is_ordered(sp, ni * (SCALE as int), ni);
                vstd::arithmetic::div_mod::lemma_div_pos_is_pos(sa, ni);
                vstd::arithmetic::div_mod::lemma_div_pos_is_pos(sp, ni);
            }
            (na as i64, np as i64)
        } else {
            (0, 0)
        };
        proof {
            assert(avg_anomaly_ratio == avg_anomaly(orig, content));
            assert(avg_pattern_ratio == avg_pattern(orig, content));
            crate::topical_bnn::lemma_bnn_ratios_bounded(orig.last(), content);
        }
        let mut final_insight: String = if avg_anomaly_ratio > self.config.dsn_pol_threshold
            && avg_pattern_ratio < 200_000 {
            let mut t = String::from_str("High semantic anomaly detected (Ratio: ");
            let v = format_two_dec(avg_anomaly_ratio);
            t.append(v.as_str());
            t.append(
                "). Indicates potential novel pattern or deviation from established data structures relevant to this domain.",
            );
            t
        } else if avg_pattern_ratio > self.config.dsn_pol_threshold && avg_anomaly_ratio
            < 300_000 {
            let mut t = String::from_str("Strong semantic coherence observed (Pattern Ratio: ");
            let v = format_two_dec(avg_pattern_ratio);
            t.append(v.as_str());
            t.append(
                "). Data aligns well with established patterns within this domain, indicating high relevance and understanding.",
            );
            t
        } else if avg_pattern_ratio > 500_000 && avg_anomaly_ratio > 500_000 {
            let mut t = String::from_str("Mixed semantic signal (Pattern: ");
            let v = format_two_dec(avg_pattern_ratio);
            t.append(v.as_str());
            t.append(", Anomaly: ");
            let w = format_two_dec(avg_anomaly_ratio);
            t.append(w.as_str());
            t.append(
                "). Contains elements of known patterns but also significant novel or conflicting data. Requires deeper KSL synthesis.",
            );
            t
        } else {
            let mut t = String::from_str("Moderate semantic relevance detected (Anomaly: ");
            let v = format_two_dec(avg_anomaly_ratio);
            t.append(v.as_str());
            t.append(", Pattern: ");
            let w = format_two_dec(avg_pattern_ratio);
            t.append(w.as_str());
            t.append("). Further contextual analysis at KSL level is recommended.");
            t
        };
        proof {
            assert(final_insight@ == insight_text(
                avg_anomaly(orig, content),
                avg_pattern(orig, content),
                old(self).config.dsn_pol_threshold as int,
            ));
        }
        final_insight.append("\nSupporting BNNs: ");
        let s_text = usize_to_string(supporting_bnns_count_from_bnns);
        final_insight.append(s_text.as_str());
        final_insight.append("/");
        let n_text = usize_to_string(n);
        final_insight.append(n_text.as_str());
        final_insight.append(". BNN Analysis: [");
        final_insight.append(bnn_analysis_summaries.as_str());
        final_insight.append("]");
        DSNOutput {
            dsn_id: self.id,
            insight: final_insight,
            supporting_bnns: supporting_bnns_count_from_bnns,
        }
    }
}

} // verus!
