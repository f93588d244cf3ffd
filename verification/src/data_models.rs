//! Shared data structures: the external event, per-level outputs, and the
//! knowledge-base records the synthesis cascade reads.
//!
//! Knowledge entries that the source data carries as free-form JSON are
//! modeled as plain records holding exactly the fields the cascade reads;
//! a missing object or field is an absent `Option`.

use vstd::prelude::*;
use vstd::string::StrSliceExecFns;
use crate::text::{
    eq_str, is_ascii_punct, is_ascii_punct_char, is_space, is_space_char, lemma_utf8_len_bounds,
    lemma_utf8_len_push, utf8_len, utf8_width,
};
use crate::trusted::{lower_of, to_lowercase};

verus! {

/// A text-like event entering the hierarchy. The timestamp is in
/// milliseconds since the Unix epoch.
pub struct ExternalDataPoint {
    pub id: u64,
    pub timestamp: i64,
    pub source: String,
    pub data_type: String,
    pub content: String,
}

impl Clone for ExternalDataPoint {
    /// A copy carries the same identifier, timestamp and texts.
    fn clone(&self) -> (r: Self)
        ensures
            r.id == self.id,
            r.timestamp == self.timestamp,
            r.source@ == self.source@,
            r.data_type@ == self.data_type@,
            r.content@ == self.content@,
    {
        ExternalDataPoint {
            id: self.id,
            timestamp: self.timestamp,
            source: self.source.clone(),
            data_type: self.data_type.clone(),
            content: self.content.clone(),
        }
    }
}

/// Output of one Domain Network run: an insight text and the count of
/// topic networks whose pattern ratio exceeded the consensus threshold.
pub struct DSNOutput {
    pub dsn_id: u64,
    pub insight: String,
    pub supporting_bnns: usize,
}

/// One philosophy entry of the knowledge base.
pub struct CorePhilosophy {
    pub name: String,
    pub definition: String,
    pub framework_integration: String,
    pub hint_for_axiom: String,
}

/// One key-project entry of the knowledge base.
pub struct KeyProject {
    pub name: String,
    pub nature: String,
    pub core_purpose: String,
    pub mission_alignment: String,
    pub operational_link: Option<Vec<String>>,
}

/// The architect's profile.
pub struct UserProfile {
    pub name: String,
    pub role: String,
    pub core_mission: String,
    pub personal_principles: Vec<String>,
    pub birth_info: Option<Vec<(String, String)>>,
    pub skills: Vec<String>,
    pub interests: Vec<String>,
    pub favorite_colors: Vec<String>,
    pub aspirations: String,
    pub strategic_goals: Vec<String>,
    pub ai_view: String,
    pub world_peace_mission: String,
}

impl UserProfile {
    /// The profile holds nothing the cascade's first branch could match.
    pub open spec fn is_empty(&self) -> bool {
        &&& self.personal_principles@.len() == 0
        &&& self.interests@.len() == 0
        &&& self.strategic_goals@.len() == 0
        &&& self.core_mission@.len() == 0
    }
}

impl Default for UserProfile {
    /// An entirely empty profile.
    fn default() -> (r: Self)
        ensures
            r.is_empty(),
            r.name@.len() == 0,
            r.role@.len() == 0,
            r.skills@.len() == 0,
            r.favorite_colors@.len() == 0,
            r.aspirations@.len() == 0,
            r.ai_view@.len() == 0,
            r.world_peace_mission@.len() == 0,
            r.birth_info is None,
    {
        UserProfile {
            name: String::new(),
            role: String::new(),
            core_mission: String::new(),
            personal_principles: Vec::new(),
            birth_info: None,
            skills: Vec::new(),
            interests: Vec::new(),
            favorite_colors: Vec::new(),
            aspirations: String::new(),
            strategic_goals: Vec::new(),
            ai_view: String::new(),
            world_peace_mission: String::new(),
        }
    }
}

/// Feedback from a motor-control device; the timestamp is in
/// milliseconds since the Unix epoch.
pub struct MotorControlFeedback {
    pub status: String,
    pub timestamp: i64,
}

/// A motor-control device's response: an overall status plus feedback.
pub struct MotorControlResponse {
    pub status: String,
    pub feedback: MotorControlFeedback,
}

/// The origin record of the cosmology data; fields the source data may
/// omit are absent `Option`s.
pub struct CosmologyOrigin {
    pub primordial_state: Option<String>,
    pub first_motion: Option<String>,
}

/// One benevolent foundational entity of the cosmology data.
pub struct BenevolentBeing {
    pub name: String,
    pub concept: Option<String>,
    pub nature: Option<String>,
}

/// The cosmology knowledge: each top-level `Option` is `None` where the
/// corresponding object is absent from the loaded data.
pub struct CosmologyData {
    pub origin: Option<CosmologyOrigin>,
    pub malevolent_entities: Option<Vec<String>>,
    pub benevolent_entities: Option<Vec<BenevolentBeing>>,
}

impl CosmologyData {
    /// Nothing the cascade's cosmology branch could read.
    pub open spec fn is_empty(&self) -> bool {
        &&& self.origin is None
        &&& self.malevolent_entities is None
        &&& self.benevolent_entities is None
    }
}

impl Default for CosmologyData {
    /// Entirely absent cosmology data.
    fn default() -> (r: Self)
        ensures
            r.is_empty(),
    {
        CosmologyData { origin: None, malevolent_entities: None, benevolent_entities: None }
    }
}

/// The vision record of the bio-hybrid data.
pub struct BioHybridVision {
    pub designation: Option<String>,
}

/// One humanoid bio-hybrid record.
pub struct HumanoidRecord {
    pub name: String,
    pub hybrid_type: Option<String>,
    pub primary_relationship: Option<String>,
}

/// The cellular-regeneration record of the bio-hybrid data.
pub struct NanodocsRecord {
    pub mechanism: Option<String>,
    pub long_term_goal: Option<String>,
}

/// The bio-hybrid knowledge: each top-level `Option` is `None` where the
/// corresponding object is absent from the loaded data.
pub struct BioHybridData {
    pub vision: Option<BioHybridVision>,
    pub humanoid_bio_hybrids: Option<Vec<HumanoidRecord>>,
    pub cellular_regeneration_nanodocs: Option<NanodocsRecord>,
}

impl BioHybridData {
    /// Nothing the cascade's bio-hybrid branch could read.
    pub open spec fn is_empty(&self) -> bool {
        &&& self.vision is None
        &&& self.humanoid_bio_hybrids is None
        &&& self.cellular_regeneration_nanodocs is None
    }
}

impl Default for BioHybridData {
    /// Entirely absent bio-hybrid data.
    fn default() -> (r: Self)
        ensures
            r.is_empty(),
    {
        BioHybridData {
            vision: None,
            humanoid_bio_hybrids: None,
            cellular_regeneration_nanodocs: None,
        }
    }
}

} // verus!

verus! {

/// The stop words that keyword extraction removes.
pub open spec fn is_stop_word(w: Seq<char>) -> bool {
    ||| w == "a"@
    ||| w == "an"@
    ||| w == "the"@
    ||| w == "and"@
    ||| w == "or"@
    ||| w == "but"@
    ||| w == "is"@
    ||| w == "are"@
    ||| w == "was"@
    ||| w == "were"@
    ||| w == "be"@
    ||| w == "been"@
    ||| w == "being"@
    ||| w == "to"@
    ||| w == "of"@
    ||| w == "in"@
    ||| w == "on"@
    ||| w == "at"@
    ||| w == "for"@
    ||| w == "with"@
    ||| w == "as"@
    ||| w == "by"@
    ||| w == "from"@
    ||| w == "about"@
    ||| w == "what"@
    ||| w == "how"@
    ||| w == "who"@
    ||| w == "when"@
    ||| w == "where"@
    ||| w == "why"@
    ||| w == "can"@
    ||| w == "will"@
    ||| w == "my"@
    ||| w == "your"@
    ||| w == "his"@
    ||| w == "her"@
    ||| w == "its"@
    ||| w == "our"@
    ||| w == "their"@
    ||| w == "this"@
    ||| w == "that"@
    ||| w == "these"@
    ||| w == "those"@
    ||| w == "it"@
    ||| w == "he"@
    ||| w == "she"@
    ||| w == "we"@
    ||| w == "they"@
    ||| w == "i"@
    ||| w == "you"@
    ||| w == "me"@
    ||| w == "him"@
    ||| w == "us"@
    ||| w == "them"@
    ||| w == "which"@
    ||| w == "whom"@
    ||| w == "whose"@
    ||| w == "do"@
    ||| w == "don"@
    ||| w == "does"@
    ||| w == "doesn"@
    ||| w == "did"@
    ||| w == "didn"@
    ||| w == "has"@
    ||| w == "hasn"@
    ||| w == "have"@
    ||| w == "haven"@
    ||| w == "had"@
    ||| w == "hadn"@
    ||| w == "not"@
    ||| w == "no"@
    ||| w == "yes"@
    ||| w == "so"@
    ||| w == "than"@
    ||| w == "then"@
    ||| w == "just"@
    ||| w == "now"@
    ||| w == "only"@
    ||| w == "very"@
    ||| w == "too"@
    ||| w == "much"@
    ||| w == "more"@
    ||| w == "most"@
    ||| w == "less"@
    ||| w == "least"@
    ||| w == "many"@
    ||| w == "few"@
    ||| w == "some"@
    ||| w == "any"@
    ||| w == "all"@
    ||| w == "none"@
    ||| w == "every"@
    ||| w == "each"@
    ||| w == "both"@
    ||| w == "either"@
    ||| w == "neither"@
    ||| w == "own"@
    ||| w == "same"@
    ||| w == "such"@
    ||| w == "up"@
    ||| w == "down"@
    ||| w == "out"@
    ||| w == "off"@
    ||| w == "over"@
    ||| w == "under"@
    ||| w == "again"@
    ||| w == "further"@
    ||| w == "once"@
    ||| w == "here"@
    ||| w == "there"@
    ||| w == "other"@
    ||| w == "nor"@
    ||| w == "s"@
    ||| w == "t"@
    ||| w == "should"@
}

/// Checks a word against the stop-word list.
pub fn check_stop_word(w: &str) -> (r: bool)
    ensures
        r == is_stop_word(w@),
{
    eq_str(w, "a") || eq_str(w, "an") || eq_str(w, "the") || eq_str(w, "and") ||
        eq_str(w, "or") || eq_str(w, "but") || eq_str(w, "is") || eq_str(w, "are") ||
        eq_str(w, "was") || eq_str(w, "were") || eq_str(w, "be") || eq_str(w, "been") ||
        eq_str(w, "being") || eq_str(w, "to") || eq_str(w, "of") || eq_str(w, "in") ||
        eq_str(w, "on") || eq_str(w, "at") || eq_str(w, "for") || eq_str(w, "with") ||
        eq_str(w, "as") || eq_str(w, "by") || eq_str(w, "from") || eq_str(w, "about") ||
        eq_str(w, "what") || eq_str(w, "how") || eq_str(w, "who") || eq_str(w, "when") ||
        eq_str(w, "where") || eq_str(w, "why") || eq_str(w, "can") || eq_str(w, "will") ||
        eq_str(w, "my") || eq_str(w, "your") || eq_str(w, "his") || eq_str(w, "her") ||
        eq_str(w, "its") || eq_str(w, "our") || eq_str(w, "their") || eq_str(w, "this") ||
        eq_str(w, "that") || eq_str(w, "these") || eq_str(w, "those") || eq_str(w, "it") ||
        eq_str(w, "he") || eq_str(w, "she") || eq_str(w, "we") || eq_str(w, "they") ||
        eq_str(w, "i") || eq_str(w, "you") || eq_str(w, "me") || eq_str(w, "him") ||
        eq_str(w, "us") || eq_str(w, "them") || eq_str(w, "which") || eq_str(w, "whom") ||
        eq_str(w, "whose") || eq_str(w, "do") || eq_str(w, "don") || eq_str(w, "does") ||
        eq_str(w, "doesn") || eq_str(w, "did") || eq_str(w, "didn") || eq_str(w, "has") ||
        eq_str(w, "hasn") || eq_str(w, "have") || eq_str(w, "haven") || eq_str(w, "had") ||
        eq_str(w, "hadn") || eq_str(w, "not") || eq_str(w, "no") || eq_str(w, "yes") ||
        eq_str(w, "so") || eq_str(w, "than") || eq_str(w, "then") || eq_str(w, "just") ||
        eq_str(w, "now") || eq_str(w, "only") || eq_str(w, "very") || eq_str(w, "too") ||
        eq_str(w, "much") || eq_str(w, "more") || eq_str(w, "most") || eq_str(w, "less") ||
        eq_str(w, "least") || eq_str(w, "many") || eq_str(w, "few") || eq_str(w, "some") ||
        eq_str(w, "any") || eq_str(w, "all") || eq_str(w, "none") || eq_str(w, "every") ||
        eq_str(w, "each") || eq_str(w, "both") || eq_str(w, "either") ||
        eq_str(w, "neither") || eq_str(w, "own") || eq_str(w, "same") || eq_str(w, "such") ||
        eq_str(w, "up") || eq_str(w, "down") || eq_str(w, "out") || eq_str(w, "off") ||
        eq_str(w, "over") || eq_str(w, "under") || eq_str(w, "again") ||
        eq_str(w, "further") || eq_str(w, "once") || eq_str(w, "here") || eq_str(w, "there") ||
        eq_str(w, "other") || eq_str(w, "nor") || eq_str(w, "s") || eq_str(w, "t") ||
        eq_str(w, "should")
}

/// Punctuation characters are turned into spaces before splitting.
pub open spec fn norm_char(c: char) -> char {
    if is_ascii_punct_char(c) {
        ' '
    } else {
        c
    }
}

/// The normalization applied before splitting: punctuation becomes spaces.
pub open spec fn norm_seq(s: Seq<char>) -> Seq<char> {
    s.map_values(|c: char| norm_char(c))
}

/// Splitting on White_Space with an accumulated current word: the words of
/// `cur + s`, in order.
pub open spec fn split_acc(s: Seq<char>, cur: Seq<char>) -> Seq<Seq<char>>
    decreases s.len(),
{
    if s.len() == 0 {
        if cur.len() > 0 {
            seq![cur]
        } else {
            Seq::empty()
        }
    } else if is_space_char(s[0]) {
        if cur.len() > 0 {
            seq![cur] + split_acc(s.drop_first(), Seq::empty())
        } else {
            split_acc(s.drop_first(), Seq::empty())
        }
    } else {
        split_acc(s.drop_first(), cur.push(s[0]))
    }
}

/// The whitespace-separated words of a character sequence.
pub open spec fn split_ws(s: Seq<char>) -> Seq<Seq<char>> {
    split_acc(s, Seq::empty())
}

/// A word is kept when its UTF-8 encoding is longer than two bytes and it
/// is not a stop word.
pub open spec fn keep_word(w: Seq<char>) -> bool {
    utf8_len(w) > 2 && !is_stop_word(w)
}

/// The keywords of an already-lowercased text: punctuation replaced by
/// spaces, split on whitespace, short words and stop words removed.
pub open spec fn keywords_of_lower(s: Seq<char>) -> Seq<Seq<char>> {
    split_ws(norm_seq(s)).filter(|w: Seq<char>| keep_word(w))
}

/// The keywords of a text: its lowercase form's keywords.
pub open spec fn keywords_of(s: Seq<char>) -> Seq<Seq<char>> {
    keywords_of_lower(lower_of(s))
}


/// The kept words of a word list, in order.
pub open spec fn filter_keep(ts: Seq<Seq<char>>) -> Seq<Seq<char>> {
    ts.filter(|w: Seq<char>| keep_word(w))
}

proof fn lemma_filter_keep_push(ts: Seq<Seq<char>>, w: Seq<char>)
    ensures
        filter_keep(ts.push(w)) == filter_keep(ts) + (if keep_word(w) {
            seq![w]
        } else {
            Seq::<Seq<char>>::empty()
        }),
{
    reveal_with_fuel(Seq::<Seq<char>>::filter, 2);
    assert((ts.push(w)).drop_last() =~= ts);
    assert((ts.push(w)).last() == w);
    if keep_word(w) {
        assert(filter_keep(ts).push(w) =~= filter_keep(ts) + seq![w]);
    } else {
        assert(filter_keep(ts) =~= filter_keep(ts) + Seq::<Seq<char>>::empty());
    }
}

/// Extracts normalized keyword tokens from an already-lowercased text:
/// punctuation replaced by spaces, split on whitespace, words of at most
/// two UTF-8 bytes and stop words removed.
pub fn extract_keywords_lower(lowered: &str) -> (r: Vec<String>)
    ensures
        r.deep_view() == keywords_of_lower(lowered@),
{
    let n = lowered.unicode_len();
    let ghost whole: Seq<char> = lowered@;
    let ghost normed: Seq<char> = norm_seq(whole);
    let mut result: Vec<String> = Vec::new();
    let ghost mut toks: Seq<Seq<char>> = Seq::empty();
    let mut start: usize = 0;
    let mut cur_bytes: u128 = 0;
    let mut i: usize = 0;
    proof {
        assert(normed.skip(0) =~= normed);
        assert(normed.subrange(0, 0) =~= Seq::<char>::empty());
        assert(Seq::<Seq<char>>::empty() + split_acc(normed, Seq::empty()) =~= split_ws(normed));
        assert(filter_keep(Seq::empty()) =~= Seq::<Seq<char>>::empty());
        assert(result.deep_view() =~= Seq::<Seq<char>>::empty());
    }
    while i < n
        invariant
            n == whole.len(),
            whole == lowered@,
            normed == norm_seq(whole),
            normed.len() == n,
            0 <= start <= i <= n,
            forall|k: int| start <= k < i ==> !is_space_char(#[trigger] normed[k]),
            cur_bytes == utf8_len(normed.subrange(start as int, i as int)),
            result.deep_view() == filter_keep(toks),
            toks + split_acc(normed.skip(i as int), normed.subrange(start as int, i as int))
                == split_ws(normed),
        decreases n - i,
    {
        let c = lowered.get_char(i);
        proof {
            assert(normed[i as int] == norm_char(whole[i as int]));
        }
        let nc: char = if is_ascii_punct(c) {
            ' '
        } else {
            c
        };
        let ghost cur = normed.subrange(start as int, i as int);
        let ghost rest = normed.skip(i as int);
        proof {
            assert(rest[0] == normed[i as int]);
            assert(rest.drop_first() =~= normed.skip(i + 1));
        }
        if is_space(nc) {
            if start < i {
                let token_slice = lowered.substring_char(start, i);
                proof {
                    assert forall|k: int| start <= k < i implies whole[k] == normed[k] by {
                        assert(normed[k] == norm_char(whole[k]));
                    }
                    assert(token_slice@ =~= cur);
                }
                let keep = cur_bytes > 2 && !check_stop_word(token_slice);
                proof {
                    assert(keep == keep_word(cur));
                    lemma_filter_keep_push(toks, cur);
                }
                if keep {
                    let ghost pre_dv = result.deep_view();
                    result.push(String::from_str(token_slice));
                    proof {
                        assert(result.deep_view() =~= pre_dv.push(cur));
                        assert(pre_dv.push(cur) =~= pre_dv + seq![cur]);
                    }
                } else {
                    proof {
                        assert(filter_keep(toks.push(cur)) =~= filter_keep(toks));
                    }
                }
                proof {
                    assert(split_acc(rest, cur) == seq![cur] + split_acc(
                        normed.skip(i + 1),
                        Seq::empty(),
                    ));
                    assert(toks.push(cur) =~= toks + seq![cur]);
                    assert((toks + seq![cur]) + split_acc(normed.skip(i + 1), Seq::empty())
                        =~= toks + (seq![cur] + split_acc(normed.skip(i + 1), Seq::empty())));
                    toks = toks.push(cur);
                    assert(normed.subrange(i + 1, i + 1) =~= Seq::<char>::empty());
                }
            } else {
                proof {
                    assert(cur =~= Seq::<char>::empty());
                    assert(split_acc(rest, cur) == split_acc(normed.skip(i + 1), Seq::empty()));
                    assert(normed.subrange(i + 1, i + 1) =~= Seq::<char>::empty());
                }
            }
            start = i + 1;
            cur_bytes = 0;
        } else {
            proof {
                assert(!is_space_char(normed[i as int]));
                assert(split_acc(rest, cur) == split_acc(rest.drop_first(), cur.push(rest[0])));
                assert(cur.push(normed[i as int]) =~= normed.subrange(start as int, i + 1));
                assert(normed[i as int] == c);
                lemma_utf8_len_push(cur, c);
                lemma_utf8_len_bounds(cur);
            }
            cur_bytes = cur_bytes + (utf8_width(c) as u128);
        }
        i = i + 1;
    }
    proof {
        assert(normed.skip(n as int) =~= Seq::<char>::empty());
    }
    let ghost cur = normed.subrange(start as int, n as int);
    if start < n {
        let token_slice = lowered.substring_char(start, n);
        proof {
            assert forall|k: int| start <= k < n implies whole[k] == normed[k] by {
                assert(normed[k] == norm_char(whole[k]));
            }
            assert(token_slice@ =~= cur);
        }
        let keep = cur_bytes > 2 && !check_stop_word(token_slice);
        proof {
            assert(keep == keep_word(cur));
            lemma_filter_keep_push(toks, cur);
        }
        if keep {
            let ghost pre_dv = result.deep_view();
            result.push(String::from_str(token_slice));
            proof {
                assert(result.deep_view() =~= pre_dv.push(cur));
                assert(pre_dv.push(cur) =~= pre_dv + seq![cur]);
            }
        } else {
            proof {
                assert(filter_keep(toks.push(cur)) =~= filter_keep(toks));
            }
        }
        proof {
            assert(cur.len() > 0);
            assert(split_acc(Seq::empty(), cur) =~= seq![cur]);
            assert(toks.push(cur) =~= toks + seq![cur]);
            toks = toks.push(cur);
            assert(toks =~= split_ws(normed));
        }
    } else {
        proof {
            assert(cur =~= Seq::<char>::empty());
            assert(split_acc(Seq::<char>::empty(), cur) =~= Seq::<Seq<char>>::empty());
            assert(toks + Seq::<Seq<char>>::empty() =~= toks);
            assert(toks =~= split_ws(normed));
        }
    }
    result
}

/// Extracts normalized keyword tokens from a text: lowercase, punctuation
/// stripped, whitespace-split, with stop words and words of at most two
/// bytes removed.
pub fn extract_keywords(text: &str) -> (r: Vec<String>)
    ensures
        r.deep_view() == keywords_of(text@),
{
    let lowered = to_lowercase(text);
    extract_keywords_lower(lowered.as_str())
}

} // verus!
