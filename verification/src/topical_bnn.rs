//! The Topic Network: a flat population of spiking units dedicated to one
//! topic, with a topic keyword set. One `process_data` call drives every
//! unit through a single simulated cycle and reports the complementary
//! pattern and anomaly ratios.

use vstd::prelude::*;
use crate::config::{SystemConfig, PARAM_MAX};
use crate::data_models::{keywords_of, ExternalDataPoint};
use crate::fixed::{ratio, ratio_of, sat64, sat_add, SCALE};
use crate::neuron::{step_pc, LIFNeuron};
use crate::text::eq_str;
use crate::trusted::fresh_id;
use vstd::string::StringExecFns;

verus! {

/// Output of one Topic Network run: complementary anomaly and pattern
/// ratios in `[0, SCALE]`.
pub struct BNNOutput {
    pub bnn_id: u64,
    pub anomaly_ratio: i64,
    pub pattern_ratio: i64,
}

/// The keyword set attached to a topic label at construction.
pub open spec fn topic_keywords_spec(t: Seq<char>) -> Seq<Seq<char>> {
    if t == "Ethics & Philosophy"@ {
        seq![
            "peace"@, "love"@, "truth"@, "justice"@, "ethics"@, "moral"@, "principle"@,
            "understanding"@, "wisdom"@, "foundation"@, "unity"@,
        ]
    } else if t == "Psychology & Consciousness"@ {
        seq![
            "consciousness"@, "mind"@, "soul"@, "spirit"@, "awareness"@, "identity"@,
            "psychology"@, "cognition"@, "empathy"@,
        ]
    } else if t == "Technology & Engineering"@ {
        seq![
            "ai"@, "robotics"@, "bio-hybrid"@, "quantum"@, "engineering"@, "system"@, "tech"@,
            "nanodocs"@, "gemma"@, "platform"@,
        ]
    } else if t == "Physics & Cosmology"@ {
        seq![
            "cosmology"@, "universe"@, "quantum"@, "actuality"@, "heavens"@, "origin"@,
            "duality"@, "attraction"@, "retraction"@, "yeshua"@, "lucifer"@, "anunnaki"@,
        ]
    } else if t == "Economics & Finance"@ {
        seq![
            "business"@, "finance"@, "investment"@, "economy"@, "market"@, "wealth"@,
            "royalty"@, "subsidiary"@,
        ]
    } else if t == "Art & Creativity"@ {
        seq!["art"@, "music"@, "create"@, "design"@, "expression"@, "visual"@, "audio"@]
    } else if t == "History & Sociology"@ {
        seq![
            "history"@, "society"@, "culture"@, "sociology"@, "oppression"@, "narrative"@,
            "ancient"@, "civilization"@,
        ]
    } else {
        Seq::empty()
    }
}

fn contains_word(set: &Vec<String>, w: &String) -> (r: bool)
    ensures
        r == set.deep_view().contains(w@),
{
    let n = set.len();
    let mut j: usize = 0;
    while j < n
        invariant
            n == set@.len(),
            n == set.deep_view().len(),
            0 <= j <= n,
            forall|m: int| 0 <= m < j ==> set.deep_view()[m] != w@,
        decreases n - j,
    {
        proof {
            assert(set.deep_view()[j as int] == set@[j as int]@);
        }
        if set[j].eq(w) {
            proof {
                assert(set.deep_view().contains(w@));
            }
            return true;
        }
        j = j + 1;
    }
    proof {
        assert(!set.deep_view().contains(w@)) by {
            if set.deep_view().contains(w@) {
                let m = choose|m: int|
                    0 <= m < set.deep_view().len() && set.deep_view()[m] == w@;
                assert(false);
            }
        }
    }
    false
}

fn push_word(v: &mut Vec<String>, w: &str)
    ensures
        final(v)@.len() == old(v)@.len() + 1,
        final(v).deep_view() == old(v).deep_view().push(w@),
{
    let ghost pre = v.deep_view();
    v.push(String::from_str(w));
    proof {
        assert(v.deep_view() =~= pre.push(w@));
    }
}

/// Builds the keyword set for a topic label.
pub fn topic_keywords_for(topic: &str) -> (r: Vec<String>)
    ensures
        r.deep_view() == topic_keywords_spec(topic@),
{
    let mut v: Vec<String> = Vec::new();
    proof {
        assert(v.deep_view() =~= Seq::<Seq<char>>::empty());
    }
    if eq_str(topic, "Ethics & Philosophy") {
        push_word(&mut v, "peace");
        push_word(&mut v, "love");
        push_word(&mut v, "truth");
        push_word(&mut v, "justice");
        push_word(&mut v, "ethics");
        push_word(&mut v, "moral");
        push_word(&mut v, "principle");
        push_word(&mut v, "understanding");
        push_word(&mut v, "wisdom");
        push_word(&mut v, "foundation");
        push_word(&mut v, "unity");
        proof {
            assert(v.deep_view() =~= topic_keywords_spec(topic@));
        }
    } else if eq_str(topic, "Psychology & Consciousness") {
        push_word(&mut v, "consciousness");
        push_word(&mut v, "mind");
        push_word(&mut v, "soul");
        push_word(&mut v, "spirit");
        push_word(&mut v, "awareness");
        push_word(&mut v, "identity");
        push_word(&mut v, "psychology");
        push_word(&mut v, "cognition");
        push_word(&mut v, "empathy");
        proof {
            assert(v.deep_view() =~= topic_keywords_spec(topic@));
        }
    } else if eq_str(topic, "Technology & Engineering") {
        push_word(&mut v, "ai");
        push_word(&mut v, "robotics");
        push_word(&mut v, "bio-hybrid");
        push_word(&mut v, "quantum");
        push_word(&mut v, "engineering");
        push_word(&mut v, "system");
        push_word(&mut v, "tech");
        push_word(&mut v, "nanodocs");
        push_word(&mut v, "gemma");
        push_word(&mut v, "platform");
        proof {
            assert(v.deep_view() =~= topic_keywords_spec(topic@));
        }
    } else if eq_str(topic, "Physics & Cosmology") {
        push_word(&mut v, "cosmology");
        push_word(&mut v, "universe");
        push_word(&mut v, "quantum");
        push_word(&mut v, "actuality");
        push_word(&mut v, "heavens");
        push_word(&mut v, "origin");
        push_word(&mut v, "duality");
        push_word(&mut v, "attraction");
        push_word(&mut v, "retraction");
        push_word(&mut v, "yeshua");
        push_word(&mut v, "lucifer");
        push_word(&mut v, "anunnaki");
        proof {
            assert(v.deep_view() =~= topic_keywords_spec(topic@));
        }
    } else if eq_str(topic, "Economics & Finance") {
        push_word(&mut v, "business");
        push_word(&mut v, "finance");
        push_word(&mut v, "investment");
        push_word(&mut v, "economy");
        push_word(&mut v, "market");
        push_word(&mut v, "wealth");
        push_word(&mut v, "royalty");
        push_word(&mut v, "subsidiary");
        proof {
            assert(v.deep_view() =~= topic_keywords_spec(topic@));
        }
    } else if eq_str(topic, "Art & Creativity") {
        push_word(&mut v, "art");
        push_word(&mut v, "music");
        push_word(&mut v, "create");
        push_word(&mut v, "design");
        push_word(&mut v, "expression");
        push_word(&mut v, "visual");
        push_word(&mut v, "audio");
        proof {
            assert(v.deep_view() =~= topic_keywords_spec(topic@));
        }
    } else if eq_str(topic, "History & Sociology") {
        push_word(&mut v, "history");
        push_word(&mut v, "society");
        push_word(&mut v, "culture");
        push_word(&mut v, "sociology");
        push_word(&mut v, "oppression");
        push_word(&mut v, "narrative");
        push_word(&mut v, "ancient");
        push_word(&mut v, "civilization");
        proof {
            assert(v.deep_view() =~= topic_keywords_spec(topic@));
        }
    } else {
        proof {
            assert(v.deep_view() =~= topic_keywords_spec(topic@));
        }
    }
    v
}

/// Occurrences in `kws` (counted with multiplicity) of words that belong
/// to the keyword set.
pub open spec fn count_matches(kws: Seq<Seq<char>>, set: Seq<Seq<char>>) -> int
    decreases kws.len(),
{
    if kws.len() == 0 {
        0
    } else {
        count_matches(kws.drop_last(), set) + if set.contains(kws.last()) {
            1int
        } else {
            0int
        }
    }
}

proof fn lemma_count_matches_bound(kws: Seq<Seq<char>>, set: Seq<Seq<char>>)
    ensures
        0 <= count_matches(kws, set) <= kws.len(),
    decreases kws.len(),
{
    if kws.len() > 0 {
        lemma_count_matches_bound(kws.drop_last(), set);
    }
}

/// The byte length of a text's UTF-8 encoding, as the executable `len`
/// reports it.
pub open spec fn content_byte_len(s: Seq<char>) -> int {
    (vstd::utf8::encode_utf8(s).len() as usize) as int
}

/// The total stimulus a Topic Network applies for an event: a base
/// strength of one hundredth of the content byte length scaled by the
/// activity multiplier, plus a tenth per matched topic keyword.
pub open spec fn bnn_stimulus(byte_len: int, mult: int, matched: int) -> int {
    sat64(sat64((byte_len * 10_000 * mult) / (SCALE as int)) + sat64(matched * 100_000))
}

/// Whether a unit fires when one cycle runs after a stimulus is applied.
pub open spec fn unit_fires(u: LIFNeuron, stim: int) -> bool {
    u.refractory_countdown == 0 && crate::neuron::leaked_of(
        sat64(u.membrane_potential + stim),
        u.leak_rate as int,
        u.reset_potential as int,
    ) >= u.threshold
}

/// How many of the units fire when one cycle runs after the stimulus.
pub open spec fn count_fires(ns: Seq<LIFNeuron>, stim: int) -> int
    decreases ns.len(),
{
    if ns.len() == 0 {
        0
    } else {
        count_fires(ns.drop_last(), stim) + if unit_fires(ns.last(), stim) {
            1int
        } else {
            0int
        }
    }
}

proof fn lemma_count_fires_bound(ns: Seq<LIFNeuron>, stim: int)
    ensures
        0 <= count_fires(ns, stim) <= ns.len(),
    decreases ns.len(),
{
    if ns.len() > 0 {
        lemma_count_fires_bound(ns.drop_last(), stim);
    }
}

/// The stimulus a Topic Network computes for an event's content.
pub open spec fn bnn_stim_of(b: TopicalBNN, content: Seq<char>) -> int {
    bnn_stimulus(
        content_byte_len(content),
        b.config.neuron_activity_multiplier as int,
        count_matches(keywords_of(content), b.topic_keywords.deep_view()),
    )
}

/// The pattern ratio a Topic Network reports for an event's content: the
/// fired fraction of its population, zero when the population is empty.
pub open spec fn bnn_pattern_of(b: TopicalBNN, content: Seq<char>) -> int {
    if b.neurons@.len() == 0 {
        0
    } else {
        ratio(count_fires(b.neurons@, bnn_stim_of(b, content)), b.neurons@.len() as int)
    }
}

/// The anomaly ratio: the pattern ratio's complement, zero for an empty
/// population.
pub open spec fn bnn_anomaly_of(b: TopicalBNN, content: Seq<char>) -> int {
    if b.neurons@.len() == 0 {
        0
    } else {
        (SCALE as int) - bnn_pattern_of(b, content)
    }
}

/// Both ratios lie in `[0, SCALE]`.
pub proof fn lemma_bnn_ratios_bounded(b: TopicalBNN, content: Seq<char>)
    ensures
        0 <= bnn_pattern_of(b, content) <= SCALE,
        0 <= bnn_anomaly_of(b, content) <= SCALE,
{
    if b.neurons@.len() > 0 {
        let stim = bnn_stim_of(b, content);
        let fired = count_fires(b.neurons@, stim);
        let total = b.neurons@.len() as int;
        lemma_count_fires_bound(b.neurons@, stim);
        assert(fired * SCALE <= total * SCALE) by (nonlinear_arith)
            requires 0 <= fired <= total;
        assert(total * SCALE / total == SCALE) by (nonlinear_arith)
            requires total > 0;
        vstd::arithmetic::div_mod::lemma_div_is_ordered(fired * SCALE, total * SCALE, total);
        vstd::arithmetic::div_mod::lemma_div_pos_is_pos(fired * SCALE, total);
    }
}

/// Relation between a Topic Network's state before and after processing
/// one event: identity, topic, configuration and keyword set are kept, and
/// every unit has taken the event's stimulus and stepped one cycle.
pub open spec fn bnn_stepped(pre: TopicalBNN, post: TopicalBNN, content: Seq<char>) -> bool {
    let stim = bnn_stim_of(pre, content);
    &&& post.id == pre.id
    &&& post.topic == pre.topic
    &&& post.config == pre.config
    &&& post.topic_keywords == pre.topic_keywords
    &&& post.neurons@.len() == pre.neurons@.len()
    &&& forall|i: int|
        0 <= i < pre.neurons@.len() ==> {
            let u = #[trigger] pre.neurons@[i];
            let v = post.neurons@[i];
            let s = step_pc(
                u.leak_rate as int,
                u.reset_potential as int,
                u.threshold as int,
                u.refractory_cycles as int,
                sat64(u.membrane_potential + stim),
                u.refractory_countdown as int,
            );
            &&& v.membrane_potential == s.0
            &&& v.refractory_countdown == s.1
            &&& v.id == u.id
            &&& v.threshold == u.threshold
            &&& v.leak_rate == u.leak_rate
            &&& v.reset_potential == u.reset_potential
            &&& v.refractory_cycles == u.refractory_cycles
            &&& v.connections == u.connections
            &&& v.learning_rate == u.learning_rate
        }
}

/// A unit exactly as a constructor leaves it under this configuration:
/// at the reset potential, not refractory, unconnected, never fired, with
/// every parameter copied from the configuration.
pub open spec fn unit_fresh(u: LIFNeuron, c: SystemConfig) -> bool {
    &&& u.membrane_potential == c.lif_neuron_reset_potential
    &&& u.refractory_countdown == 0
    &&& u.threshold == c.lif_neuron_threshold
    &&& u.leak_rate == c.lif_neuron_leak_rate
    &&& u.reset_potential == c.lif_neuron_reset_potential
    &&& u.refractory_cycles == c.lif_neuron_refractory_cycles
    &&& u.learning_rate == c.default_learning_rate
    &&& u.connections@.len() == 0
    &&& u.last_spike_time is None
}

/// Relation between a Topic Network's state before and after a
/// reconfiguration: identity, topic and keyword set are kept; every unit
/// carries the new threshold, leak rate, reset potential, refractory
/// cycle count and learning rate, while its accumulated membrane
/// potential, refractory countdown, connections and fire record stay
/// untouched.
pub open spec fn bnn_reconfigured(pre: TopicalBNN, post: TopicalBNN, c: SystemConfig) -> bool {
    &&& post.id == pre.id
    &&& post.topic == pre.topic
    &&& post.topic_keywords == pre.topic_keywords
    &&& post.config.equiv(&c)
    &&& post.neurons@.len() == pre.neurons@.len()
    &&& forall|i: int|
        0 <= i < pre.neurons@.len() ==> post.neurons@[i] == (LIFNeuron {
            threshold: c.lif_neuron_threshold,
            leak_rate: c.lif_neuron_leak_rate,
            reset_potential: c.lif_neuron_reset_potential,
            refractory_cycles: c.lif_neuron_refractory_cycles,
            learning_rate: c.default_learning_rate,
            ..(#[trigger] pre.neurons@[i])
        })
}

/// A Topic Network: a population of spiking units for one topic, the
/// topic's keyword set (derived once at construction), and a configuration
/// snapshot.
pub struct TopicalBNN {
    pub id: u64,
    pub topic: String,
    pub neurons: Vec<LIFNeuron>,
    pub config: SystemConfig,
    pub topic_keywords: Vec<String>,
}

impl TopicalBNN {
    /// Structural invariant: a well-formed configuration and well-formed
    /// units.
    pub open spec fn wf(&self) -> bool {
        &&& self.config.wf()
        &&& forall|i: int| 0 <= i < self.neurons@.len() ==> (#[trigger] self.neurons@[i]).wf()
    }

    /// Creates a Topic Network with the default topic, a fresh population
    /// of `bnn_default_neurons` units at rest, and the topic's keyword
    /// set.
    pub fn new(config: SystemConfig) -> (r: Self)
        requires
            config.wf(),
        ensures
            r.wf(),
            r.topic@ == "General"@,
            r.config == config,
            r.neurons@.len() == config.bnn_default_neurons,
            forall|i: int| 0 <= i < r.neurons@.len() ==> unit_fresh(#[trigger] r.neurons@[i], config),
            r.topic_keywords.deep_view() == topic_keywords_spec("General"@),
    {
        let id = fresh_id();
        let topic = String::from_str("General");
        let mut neurons: Vec<LIFNeuron> = Vec::new();
        let mut k: usize = 0;
        while k < config.bnn_default_neurons
            invariant
                config.wf(),
                0 <= k <= config.bnn_default_neurons,
                neurons@.len() == k,
                forall|i: int|
                    0 <= i < neurons@.len() ==> (#[trigger] neurons@[i]).wf() && unit_fresh(
                        neurons@[i],
                        config,
                    ),
            decreases config.bnn_default_neurons - k,
        {
            neurons.push(LIFNeuron::new(&config));
            k = k + 1;
        }
        let topic_keywords = topic_keywords_for(topic.as_str());
        TopicalBNN { id, topic, neurons, config, topic_keywords }
    }

    /// Replaces the configuration snapshot and live-updates every unit's
    /// parameters without touching accumulated potentials, countdowns or
    /// weights.
    pub fn re_init_config(&mut self, config: SystemConfig)
        requires
            old(self).wf(),
            config.wf(),
        ensures
            final(self).wf(),
            bnn_reconfigured(*old(self), *final(self), config),
    {
        self.config = config.clone();
        let n = self.neurons.len();
        let mut i: usize = 0;
        while i < n
            invariant
                n == self.neurons@.len(),
                n == old(self).neurons@.len(),
                0 <= i <= n,
                config.wf(),
                self.config.equiv(&config),
                self.id == old(self).id,
                self.topic == old(self).topic,
                self.topic_keywords == old(self).topic_keywords,
                forall|k: int|
                    0 <= k < i ==> self.neurons@[k] == (LIFNeuron {
                        threshold: config.lif_neuron_threshold,
                        leak_rate: config.lif_neuron_leak_rate,
                        reset_potential: config.lif_neuron_reset_potential,
                        refractory_cycles: config.lif_neuron_refractory_cycles,
                        learning_rate: config.default_learning_rate,
                        ..(#[trigger] old(self).neurons@[k])
                    }),
                forall|k: int|
                    i <= k < n ==> (#[trigger] self.neurons@[k]) == old(self).neurons@[k],
            decreases n - i,
        {
            let u = &mut self.neurons[i];
            u.threshold = config.lif_neuron_threshold;
            u.leak_rate = config.lif_neuron_leak_rate;
            u.reset_potential = config.lif_neuron_reset_potential;
            u.refractory_cycles = config.lif_neuron_refractory_cycles;
            u.learning_rate = config.default_learning_rate;
            i = i + 1;
        }
        proof {
            assert forall|i: int| 0 <= i < self.neurons@.len() implies (
            #[trigger] self.neurons@[i]).wf() by {
                assert(old(self).neurons@[i].wf());
            }
        }
    }

    /// Drives one simulated cycle for an event: every unit receives the
    /// event's stimulus (content length and matched topic keywords) and
    /// steps once; the pattern ratio is the fired fraction and the anomaly
    /// ratio its complement, both zero for an empty population.
    pub fn process_data(&mut self, data: ExternalDataPoint) -> (r: BNNOutput)
        requires
            old(self).wf(),
        ensures
            final(self).wf(),
            r.bnn_id == old(self).id,
            r.pattern_ratio == bnn_pattern_of(*old(self), data.content@),
            r.anomaly_ratio == bnn_anomaly_of(*old(self), data.content@),
            old(self).neurons@.len() > 0 ==> r.pattern_ratio + r.anomaly_ratio == SCALE,
            bnn_stepped(*old(self), *final(self), data.content@),
    {
        let input_keywords = crate::data_models::extract_keywords(data.content.as_str());
        let mut matched_topic_keywords_count: usize = 0;
        let nk = input_keywords.len();
        let mut k: usize = 0;
        proof {
            assert(input_keywords.deep_view().subrange(0, 0) =~= Seq::<Seq<char>>::empty());
        }
        while k < nk
            invariant
                *self == *old(self),
                nk == input_keywords@.len(),
                nk == input_keywords.deep_view().len(),
                0 <= k <= nk,
                matched_topic_keywords_count == count_matches(
                    input_keywords.deep_view().subrange(0, k as int),
                    self.topic_keywords.deep_view(),
                ),
                matched_topic_keywords_count <= k,
            decreases nk - k,
        {
            let kw = &input_keywords[k];
            proof {
                assert(input_keywords.deep_view()[k as int] == input_keywords@[k as int]@);
            }
            let found = contains_word(&self.topic_keywords, kw);
            proof {
                let pre_sub = input_keywords.deep_view().subrange(0, k as int);
                let sub = input_keywords.deep_view().subrange(0, k + 1);
                assert(sub.drop_last() =~= pre_sub);
                assert(sub.last() == input_keywords.deep_view()[k as int]);
            }
            if found {
                matched_topic_keywords_count = matched_topic_keywords_count + 1;
            }
            k = k + 1;
        }
        proof {
            assert(input_keywords.deep_view().subrange(0, nk as int) =~= input_keywords
                .deep_view());
        }
        let byte_len = data.content.as_str().len();
        proof {
            let bl = byte_len as int;
            let mu = self.config.neuron_activity_multiplier as int;
            assert(bl <= u64::MAX as int);
            assert(0 <= bl * 10_000 * mu <= 200_000_000_000_000_000_000_000 * PARAM_MAX)
                by (nonlinear_arith)
                requires 0 <= bl <= 20_000_000_000_000_000_000, 0 <= mu <= PARAM_MAX;
        }
        let base: i128 = (byte_len as i128) * 10_000 * (self.config.neuron_activity_multiplier
            as i128) / (SCALE as i128);
        let base64: i64 = if base > (i64::MAX as i128) {
            i64::MAX
        } else {
            base as i64
        };
        proof {
            let bl = byte_len as int;
            let mu = self.config.neuron_activity_multiplier as int;
            assert(bl * 10_000 * mu >= 0) by (nonlinear_arith)
                requires bl >= 0, mu >= 0;
            vstd::arithmetic::div_mod::lemma_div_pos_is_pos(bl * 10_000 * mu, SCALE as int);
            assert(base64 == sat64((bl * 10_000 * mu) / (SCALE as int)));
        }
        let kwm: i128 = (matched_topic_keywords_count as i128) * 100_000;
        let kw64: i64 = if kwm > (i64::MAX as i128) {
            i64::MAX
        } else {
            kwm as i64
        };
        let total_input_strength = sat_add(base64, kw64);
        let ghost stim = bnn_stimulus(
            content_byte_len(data.content@),
            self.config.neuron_activity_multiplier as int,
            count_matches(keywords_of(data.content@), self.topic_keywords.deep_view()),
        );
        proof {
            assert(total_input_strength == stim);
        }
        let mut total_neurons_fired_at_least_once: usize = 0;
        let n = self.neurons.len();
        let ghost orig_units = self.neurons@;
        let mut i: usize = 0;
        proof {
            assert(orig_units.subrange(0, 0) =~= Seq::<LIFNeuron>::empty());
        }
        while i < n
            invariant
                n == self.neurons@.len(),
                n == orig_units.len(),
                0 <= i <= n,
                *self == (TopicalBNN { neurons: self.neurons, ..*old(self) }),
                orig_units == old(self).neurons@,
                forall|m: int| 0 <= m < orig_units.len() ==> (#[trigger] orig_units[m]).wf(),
                forall|m: int| i <= m < n ==> (#[trigger] self.neurons@[m]) == orig_units[m],
                forall|m: int|
                    0 <= m < i ==> {
                        let pre = #[trigger] orig_units[m];
                        let post = self.neurons@[m];
                        let s = step_pc(
                            pre.leak_rate as int,
                            pre.reset_potential as int,
                            pre.threshold as int,
                            pre.refractory_cycles as int,
                            sat64(pre.membrane_potential + stim),
                            pre.refractory_countdown as int,
                        );
                        &&& post.membrane_potential == s.0
                        &&& post.refractory_countdown == s.1
                        &&& post.id == pre.id
                        &&& post.threshold == pre.threshold
                        &&& post.leak_rate == pre.leak_rate
                        &&& post.reset_potential == pre.reset_potential
                        &&& post.refractory_cycles == pre.refractory_cycles
                        &&& post.connections == pre.connections
                        &&& post.learning_rate == pre.learning_rate
                        &&& post.wf()
                    },
                total_neurons_fired_at_least_once == count_fires(
                    orig_units.subrange(0, i as int),
                    stim,
                ),
                total_neurons_fired_at_least_once <= i,
                total_input_strength == stim,
            decreases n - i,
        {
            let ghost pre_unit = self.neurons@[i as int];
            let u = &mut self.neurons[i];
            u.apply_input(total_input_strength);
            let fired = u.update_and_check_fire();
            proof {
                assert(fired == unit_fires(orig_units[i as int], stim));
                let sub = orig_units.subrange(0, i + 1);
                assert(sub.drop_last() =~= orig_units.subrange(0, i as int));
                assert(sub.last() == orig_units[i as int]);
            }
            if fired {
                total_neurons_fired_at_least_once = total_neurons_fired_at_least_once + 1;
            }
            i = i + 1;
        }
        proof {
            assert(orig_units.subrange(0, n as int) =~= orig_units);
            assert forall|m: int| 0 <= m < self.neurons@.len() implies (
            #[trigger] self.neurons@[m]).wf() by {
                assert(orig_units[m].wf());
            }
        }
        let total_neurons = n;
        let (anomaly_ratio, pattern_ratio): (i64, i64) = if total_neurons > 0 {
            proof {
                lemma_count_fires_bound(orig_units, stim);
            }
            let p = ratio_of(total_neurons_fired_at_least_once, total_neurons);
            (SCALE - p, p)
        } else {
            (0, 0)
        };
        BNNOutput { bnn_id: self.id, anomaly_ratio, pattern_ratio }
    }
}

} // verus!
