//! Verified text helpers for the synthesis cascade: joining fragments,
//! first-occurrence extraction, whitespace trimming, and the decimal
//! re-parsing the generic fallback performs on already-generated insight
//! texts.

use vstd::prelude::*;
use vstd::string::StrSliceExecFns;
use vstd::string::StringExecFns;
use crate::fixed::SCALE;
use crate::text::{contains_sub, find_sub, is_space, is_space_char, matches_at};

verus! {

/// The fragments joined with the separator between consecutive ones.
pub open spec fn join_with(parts: Seq<Seq<char>>, sep: Seq<char>) -> Seq<char>
    decreases parts.len(),
{
    if parts.len() == 0 {
        Seq::empty()
    } else if parts.len() == 1 {
        parts[0]
    } else {
        join_with(parts.drop_last(), sep) + sep + parts.last()
    }
}

/// Joins string fragments with a separator.
pub fn join_parts(parts: &Vec<String>, sep: &str) -> (r: String)
    ensures
        r@ == join_with(parts.deep_view(), sep@),
{
    let mut r = String::new();
    let n = parts.len();
    let mut i: usize = 0;
    proof {
        assert(parts.deep_view().subrange(0, 0) =~= Seq::<Seq<char>>::empty());
        assert(r@ =~= Seq::<char>::empty());
    }
    while i < n
        invariant
            n == parts@.len(),
            n == parts.deep_view().len(),
            0 <= i <= n,
            r@ == join_with(parts.deep_view().subrange(0, i as int), sep@),
        decreases n - i,
    {
        if i > 0 {
            r.append(sep);
        }
        r.append(parts[i].as_str());
        proof {
            let sub = parts.deep_view().subrange(0, i + 1);
            assert(sub.drop_last() =~= parts.deep_view().subrange(0, i as int));
            assert(sub.last() == parts.deep_view()[i as int]);
            assert(parts.deep_view()[i as int] == parts@[i as int]@);
            if i == 0 {
                assert(r@ =~= join_with(sub, sep@));
            }
        }
        i = i + 1;
    }
    proof {
        assert(parts.deep_view().subrange(0, n as int) =~= parts.deep_view());
    }
    r
}

/// The prefix of a text up to (excluding) the first occurrence of a
/// character, or the whole text where the character does not occur.
pub open spec fn prefix_to(s: Seq<char>, c: char) -> Seq<char>
    decreases s.len(),
{
    if s.len() == 0 {
        s
    } else if s[0] == c {
        Seq::empty()
    } else {
        seq![s[0]] + prefix_to(s.drop_first(), c)
    }
}

pub proof fn lemma_prefix_to(s: Seq<char>, c: char, i: int)
    requires
        0 <= i <= s.len(),
        forall|k: int| 0 <= k < i ==> s[k] != c,
        i == s.len() || s[i] == c,
    ensures
        prefix_to(s, c) == s.subrange(0, i),
    decreases i,
{
    if s.len() == 0 {
        assert(prefix_to(s, c) =~= s.subrange(0, 0));
    } else if i == 0 {
        if s[0] == c {
            assert(prefix_to(s, c) =~= s.subrange(0, 0));
        } else {
            assert(prefix_to(s, c) == seq![s[0]] + prefix_to(s.drop_first(), c));
            assert(s.subrange(0, 0) =~= Seq::<char>::empty());
            assert(false) by {
                assert(s[0] == c);
            }
        }
    } else {
        let t = s.drop_first();
        assert(forall|k: int| 0 <= k < i - 1 ==> t[k] != c);
        lemma_prefix_to(t, c, i - 1);
        assert(seq![s[0]] + t.subrange(0, i - 1) =~= s.subrange(0, i));
    }
}

/// Extracts the prefix of a text up to the first occurrence of `c`.
pub fn take_until(s: &str, c: char) -> (r: String)
    ensures
        r@ == prefix_to(s@, c),
{
    let n = s.unicode_len();
    let mut i: usize = 0;
    while i < n
        invariant
            n == s@.len(),
            0 <= i <= n,
            forall|k: int| 0 <= k < i ==> s@[k] != c,
        decreases n - i,
    {
        if s.get_char(i) == c {
            proof {
                lemma_prefix_to(s@, c, i as int);
            }
            return String::from_str(s.substring_char(0, i));
        }
        i = i + 1;
    }
    proof {
        lemma_prefix_to(s@, c, n as int);
        assert(s@.subrange(0, n as int) =~= s@);
    }
    String::from_str(s)
}

/// The text with leading White_Space removed.
pub open spec fn trim_start_spec(s: Seq<char>) -> Seq<char>
    decreases s.len(),
{
    if s.len() > 0 && is_space_char(s[0]) {
        trim_start_spec(s.drop_first())
    } else {
        s
    }
}

/// The text with trailing White_Space removed.
pub open spec fn trim_end_spec(s: Seq<char>) -> Seq<char>
    decreases s.len(),
{
    if s.len() > 0 && is_space_char(s.last()) {
        trim_end_spec(s.drop_last())
    } else {
        s
    }
}

/// The text with both leading and trailing White_Space removed.
pub open spec fn trim_spec(s: Seq<char>) -> Seq<char> {
    trim_end_spec(trim_start_spec(s))
}

proof fn lemma_trim_start_range(s: Seq<char>, a: int)
    requires
        0 <= a <= s.len(),
        forall|k: int| 0 <= k < a ==> is_space_char(s[k]),
        a == s.len() || !is_space_char(s[a]),
    ensures
        trim_start_spec(s) == s.subrange(a, s.len() as int),
    decreases a,
{
    if a == 0 {
        assert(s.subrange(0, s.len() as int) =~= s);
    } else {
        let t = s.drop_first();
        assert(forall|k: int| 0 <= k < a - 1 ==> is_space_char(t[k]));
        lemma_trim_start_range(t, a - 1);
        assert(t.subrange(a - 1, t.len() as int) =~= s.subrange(a, s.len() as int));
    }
}

proof fn lemma_trim_end_range(s: Seq<char>, b: int)
    requires
        0 <= b <= s.len(),
        forall|k: int| b <= k < s.len() ==> is_space_char(s[k]),
        b == 0 || !is_space_char(s[b - 1]),
    ensures
        trim_end_spec(s) == s.subrange(0, b),
    decreases s.len() - b,
{
    if b == s.len() {
        assert(s.subrange(0, s.len() as int) =~= s);
    } else {
        let t = s.drop_last();
        assert(forall|k: int| b <= k < t.len() ==> is_space_char(t[k]));
        lemma_trim_end_range(t, b);
        assert(t.subrange(0, b) =~= s.subrange(0, b));
    }
}

/// Removes leading and trailing White_Space.
pub fn trim_text(s: &str) -> (r: String)
    ensures
        r@ == trim_spec(s@),
{
    let n = s.unicode_len();
    let mut a: usize = 0;
    while a < n && is_space(s.get_char(a))
        invariant
            n == s@.len(),
            0 <= a <= n,
            forall|k: int| 0 <= k < a ==> is_space_char(s@[k]),
        decreases n - a,
    {
        a = a + 1;
    }
    let mut b: usize = n;
    while b > a && is_space(s.get_char(b - 1))
        invariant
            n == s@.len(),
            0 <= a <= b <= n,
            forall|k: int| 0 <= k < a ==> is_space_char(s@[k]),
            forall|k: int| b <= k < n ==> is_space_char(s@[k]),
        decreases b,
    {
        b = b - 1;
    }
    proof {
        lemma_trim_start_range(s@, a as int);
        let t = trim_start_spec(s@);
        lemma_trim_end_range(t, b - a);
        assert(t.subrange(0, b - a) =~= s@.subrange(a as int, b as int));
    }
    String::from_str(s.substring_char(a, b))
}

/// Every character is a decimal digit.
pub open spec fn all_digits(s: Seq<char>) -> bool {
    forall|k: int| 0 <= k < s.len() ==> '0' <= #[trigger] s[k] && s[k] <= '9'
}

/// The value of a string of decimal digits.
pub open spec fn digits_val(s: Seq<char>) -> int
    decreases s.len(),
{
    if s.len() == 0 {
        0
    } else {
        digits_val(s.drop_last()) * 10 + (s.last() as int - '0' as int)
    }
}

/// Powers of ten up to the twelve-digit cap.
pub open spec fn ten_to(n: int) -> int {
    if n <= 0 {
        1
    } else if n == 1 {
        10
    } else if n == 2 {
        100
    } else if n == 3 {
        1_000
    } else if n == 4 {
        10_000
    } else if n == 5 {
        100_000
    } else if n == 6 {
        1_000_000
    } else if n == 7 {
        10_000_000
    } else if n == 8 {
        100_000_000
    } else if n == 9 {
        1_000_000_000
    } else if n == 10 {
        10_000_000_000
    } else if n == 11 {
        100_000_000_000
    } else {
        1_000_000_000_000
    }
}

proof fn lemma_digits_val_bound(s: Seq<char>)
    requires
        all_digits(s),
        s.len() <= 12,
    ensures
        0 <= digits_val(s) < ten_to(s.len() as int),
    decreases s.len(),
{
    if s.len() > 0 {
        lemma_digits_val_bound(s.drop_last());
    }
}

/// The fixed-point weight of the fraction digits: the first six carry
/// their decimal weight, further digits fall off the grid.
pub open spec fn frac_val(s: Seq<char>) -> int {
    let t = if s.len() <= 6 {
        s
    } else {
        s.subrange(0, 6)
    };
    digits_val(t) * ten_to(6 - t.len() as int)
}

/// The fixed-point number a piece of text denotes: an unsigned decimal
/// with an optional fraction, the only numeric form the insight templates
/// produce; at most twelve integer digits are admitted. Other forms yield
/// nothing.
pub open spec fn parse_fixed(s: Seq<char>) -> Option<int> {
    let ip = prefix_to(s, '.');
    if ip.len() == s.len() {
        if s.len() >= 1 && s.len() <= 12 && all_digits(s) {
            Some(digits_val(s) * (SCALE as int))
        } else {
            None
        }
    } else {
        let fp = s.subrange(ip.len() as int + 1, s.len() as int);
        if ip.len() + fp.len() >= 1 && ip.len() <= 12 && all_digits(ip) && all_digits(fp) {
            Some(digits_val(ip) * (SCALE as int) + frac_val(fp))
        } else {
            None
        }
    }
}

/// A successfully parsed value lies below `10^18 + 10^6`.
pub proof fn lemma_parse_fixed_bound(s: Seq<char>)
    ensures
        parse_fixed(s) matches Some(v) ==> 0 <= v < 1_000_000_000_000_000_000 + 1_000_000,
{
    let ip = prefix_to(s, '.');
    if ip.len() == s.len() {
        if s.len() >= 1 && s.len() <= 12 && all_digits(s) {
            lemma_digits_val_bound(s);
            assert(digits_val(s) * (SCALE as int) <= (ten_to(12) - 1) * (SCALE as int))
                by (nonlinear_arith)
                requires 0 <= digits_val(s) <= ten_to(12) - 1, SCALE > 0;
            assert(digits_val(s) * (SCALE as int) >= 0) by (nonlinear_arith)
                requires digits_val(s) >= 0, SCALE > 0;
        }
    } else {
        let fp = s.subrange(ip.len() as int + 1, s.len() as int);
        if ip.len() + fp.len() >= 1 && ip.len() <= 12 && all_digits(ip) && all_digits(fp) {
            lemma_digits_val_bound(ip);
            let t = if fp.len() <= 6 {
                fp
            } else {
                fp.subrange(0, 6)
            };
            assert(all_digits(t));
            lemma_digits_val_bound(t);
            assert(0 <= frac_val(fp) < 1_000_000) by {
                assert(0 <= digits_val(t) < ten_to(t.len() as int));
                assert(digits_val(t) * ten_to(6 - t.len() as int) < ten_to(6))
                    by (nonlinear_arith)
                    requires
                        0 <= digits_val(t) < ten_to(t.len() as int),
                        ten_to(t.len() as int) * ten_to(6 - t.len() as int) == ten_to(6),
                        ten_to(6 - t.len() as int) > 0;
                assert(digits_val(t) * ten_to(6 - t.len() as int) >= 0) by (nonlinear_arith)
                    requires digits_val(t) >= 0, ten_to(6 - t.len() as int) > 0;
            }
            assert(digits_val(ip) * (SCALE as int) <= (ten_to(12) - 1) * (SCALE as int))
                by (nonlinear_arith)
                requires 0 <= digits_val(ip) <= ten_to(12) - 1, SCALE > 0;
            assert(digits_val(ip) * (SCALE as int) >= 0) by (nonlinear_arith)
                requires digits_val(ip) >= 0, SCALE > 0;
        }
    }
}

fn digits_of(s: &str, from: usize, to: usize) -> (r: Option<u64>)
    requires
        from <= to <= s@.len(),
        to - from <= 12,
    ensures
        all_digits(s@.subrange(from as int, to as int)) <==> r is Some,
        r matches Some(v) ==> v == digits_val(s@.subrange(from as int, to as int)),
{
    let mut acc: u64 = 0;
    let mut i: usize = from;
    proof {
        assert(s@.subrange(from as int, from as int) =~= Seq::<char>::empty());
    }
    while i < to
        invariant
            from <= i <= to <= s@.len(),
            to - from <= 12,
            all_digits(s@.subrange(from as int, i as int)),
            acc == digits_val(s@.subrange(from as int, i as int)),
        decreases to - i,
    {
        let c = s.get_char(i);
        if !('0' <= c && c <= '9') {
            proof {
                assert(s@.subrange(from as int, to as int)[i - from] == s@[i as int]);
            }
            return None;
        }
        let d: u64 = (c as u32 as u64) - ('0' as u32 as u64);
        proof {
            let sub = s@.subrange(from as int, i + 1);
            assert(sub.drop_last() =~= s@.subrange(from as int, i as int));
            assert(sub.last() == s@[i as int]);
            lemma_digits_val_bound(s@.subrange(from as int, i as int));
        }
        acc = acc * 10 + d;
        i = i + 1;
    }
    proof {
        assert(s@.subrange(from as int, to as int) == s@.subrange(from as int, i as int));
    }
    Some(acc)
}

fn ten_pow(n: u64) -> (r: u64)
    requires
        n <= 6,
    ensures
        r == ten_to(n as int),
{
    if n == 0 {
        1
    } else if n == 1 {
        10
    } else if n == 2 {
        100
    } else if n == 3 {
        1_000
    } else if n == 4 {
        10_000
    } else if n == 5 {
        100_000
    } else {
        1_000_000
    }
}

fn find_char(s: &str, c: char) -> (r: Option<usize>)
    ensures
        match r {
            Some(i) => i < s@.len() && s@[i as int] == c && forall|k: int| 0 <= k < i ==> s@[k] != c,
            None => forall|k: int| 0 <= k < s@.len() ==> s@[k] != c,
        },
{
    let n = s.unicode_len();
    let mut i: usize = 0;
    while i < n
        invariant
            n == s@.len(),
            0 <= i <= n,
            forall|k: int| 0 <= k < i ==> s@[k] != c,
        decreases n - i,
    {
        if s.get_char(i) == c {
            return Some(i);
        }
        i = i + 1;
    }
    None
}

/// Parses a piece of text as a non-negative fixed-point decimal.
pub fn parse_fixed_text(s: &str) -> (r: Option<i64>)
    ensures
        r is Some <==> parse_fixed(s@) is Some,
        r matches Some(v) ==> parse_fixed(s@) == Some(v as int) && v >= 0,
{
    let n = s.unicode_len();
    let dot: usize = match find_char(s, '.') {
        Some(i) => i,
        None => n,
    };
    proof {
        if dot == n {
            lemma_prefix_to(s@, '.', n as int);
            assert(s@.subrange(0, n as int) =~= s@);
        } else {
            lemma_prefix_to(s@, '.', dot as int);
        }
    }
    if dot == n {
        if n < 1 || n > 12 {
            return None;
        }
        match digits_of(s, 0, n) {
            Some(v) => {
                proof {
                    assert(s@.subrange(0, n as int) =~= s@);
                    lemma_digits_val_bound(s@);
                    assert(v * (SCALE as int) < ten_to(12) * (SCALE as int))
                        by (nonlinear_arith)
                        requires 0 <= v < ten_to(12), SCALE > 0;
                    assert(v * (SCALE as int) >= 0) by (nonlinear_arith)
                        requires v >= 0, SCALE > 0;
                }
                Some((v as i64) * SCALE)
            },
            None => None,
        }
    } else {
        let ip_len = dot;
        let fp_len = n - dot - 1;
        if ip_len + fp_len < 1 || ip_len > 12 {
            return None;
        }
        let ip_v = match digits_of(s, 0, ip_len) {
            Some(v) => v,
            None => {
                return None;
            },
        };
        let m: usize = if fp_len <= 6 {
            fp_len
        } else {
            6
        };
        let fp_v = match digits_of(s, dot + 1, dot + 1 + m) {
            Some(v) => v,
            None => {
                proof {
                    let fp = s@.subrange(dot + 1, n as int);
                    let t = s@.subrange(dot + 1, dot + 1 + m);
                    assert forall|k: int| 0 <= k < t.len() implies t[k] == fp[k] by {}
                    if all_digits(fp) {
                        assert(all_digits(t));
                    }
                }
                return None;
            },
        };
        // The remaining fraction digits must still be digits for the text
        // to denote a number, though they fall off the fixed-point grid.
        let mut j: usize = dot + 1 + m;
        while j < n
            invariant
                n == s@.len(),
                dot < n,
                prefix_to(s@, '.') == s@.subrange(0, dot as int),
                dot + 1 + m <= j <= n,
                forall|k: int| dot + 1 + m <= k < j ==> '0' <= #[trigger] s@[k] && s@[k] <= '9',
            decreases n - j,
        {
            let c = s.get_char(j);
            if !('0' <= c && c <= '9') {
                proof {
                    let fp = s@.subrange(dot + 1, n as int);
                    assert(fp[j - dot - 1] == s@[j as int]);
                }
                return None;
            }
            j = j + 1;
        }
        proof {
            let fp = s@.subrange(dot + 1, n as int);
            let t = s@.subrange(dot + 1, dot + 1 + m);
            assert forall|k: int| 0 <= k < fp.len() implies '0' <= #[trigger] fp[k] && fp[k]
                <= '9' by {
                assert(fp[k] == s@[dot + 1 + k]);
                if k < m {
                    assert(t[k] == s@[dot + 1 + k]);
                }
            }
            assert(all_digits(fp));
            if fp.len() <= 6 {
                assert(t =~= fp);
            } else {
                assert(t =~= fp.subrange(0, 6));
            }
            lemma_digits_val_bound(t);
            lemma_digits_val_bound(s@.subrange(0, ip_len as int));
        }
        let scale_up = ten_pow((6 - m) as u64);
        proof {
            assert(fp_v * scale_up < ten_to(6)) by (nonlinear_arith)
                requires
                    0 <= fp_v < ten_to(m as int),
                    scale_up == ten_to(6 - m as int),
                    ten_to(m as int) * ten_to(6 - m as int) == ten_to(6),
                    scale_up > 0;
            assert(fp_v * scale_up >= 0) by (nonlinear_arith)
                requires fp_v >= 0, scale_up >= 0;
            assert(ip_v * (SCALE as int) < ten_to(12) * (SCALE as int)) by (nonlinear_arith)
                requires 0 <= ip_v < ten_to(12), SCALE > 0;
            assert(ip_v * (SCALE as int) >= 0) by (nonlinear_arith)
                requires ip_v >= 0, SCALE > 0;
        }
        let frac_part: u64 = fp_v * scale_up;
        let value: i64 = (ip_v as i64) * SCALE + (frac_part as i64);
        proof {
            let ip = s@.subrange(0, ip_len as int);
            let fp = s@.subrange(dot + 1, n as int);
            assert(value == digits_val(ip) * (SCALE as int) + frac_val(fp));
        }
        Some(value)
    }
}

/// The least index at which the needle occurs in the haystack.
pub open spec fn first_at(h: Seq<char>, n: Seq<char>) -> int {
    choose|i: int|
        matches_at(h, n, i) && (forall|k: int| 0 <= k < i ==> !matches_at(h, n, k))
}

pub proof fn lemma_first_at(h: Seq<char>, n: Seq<char>, i: int)
    requires
        matches_at(h, n, i),
        forall|k: int| 0 <= k < i ==> !matches_at(h, n, k),
    ensures
        first_at(h, n) == i,
{
    let j = first_at(h, n);
    assert(matches_at(h, n, j) && (forall|k: int| 0 <= k < j ==> !matches_at(h, n, k))) by {
        assert(matches_at(h, n, i) && (forall|k: int| 0 <= k < i ==> !matches_at(h, n, k)));
    }
    if j < i {
        assert(false);
    }
    if i < j {
        assert(false);
    }
}

/// The value the fallback re-derives from one insight text for a label:
/// the piece after the first occurrence of the label, cut at the first
/// comma, trimmed, read as a decimal — or nothing, reproducing how a
/// non-numeric piece contributes nothing.
pub open spec fn parsed_ratio(s: Seq<char>, needle: Seq<char>) -> Option<int> {
    if !contains_sub(s, needle) {
        None
    } else {
        let start = first_at(s, needle) + needle.len();
        let rest = s.subrange(start, s.len() as int);
        parse_fixed(trim_spec(prefix_to(rest, ',')))
    }
}

/// Re-derives the labelled value from one insight text.
pub fn parse_ratio(s: &str, needle: &str) -> (r: Option<i64>)
    ensures
        r is Some <==> parsed_ratio(s@, needle@) is Some,
        r matches Some(v) ==> parsed_ratio(s@, needle@) == Some(v as int) && v >= 0,
{
    match find_sub(s, needle) {
        None => None,
        Some(i) => {
            proof {
                lemma_first_at(s@, needle@, i as int);
            }
            let nl = needle.unicode_len();
            let n = s.unicode_len();
            let rest = s.substring_char(i + nl, n);
            let piece = take_until(rest, ',');
            let trimmed = trim_text(piece.as_str());
            parse_fixed_text(trimmed.as_str())
        },
    }
}

/// Sum of the values the fallback re-derives from a list of insight
/// texts; texts without a readable value contribute nothing.
pub open spec fn sum_parsed(insights: Seq<Seq<char>>, needle: Seq<char>) -> int
    decreases insights.len(),
{
    if insights.len() == 0 {
        0
    } else {
        sum_parsed(insights.drop_last(), needle) + match parsed_ratio(insights.last(), needle) {
            Some(v) => v,
            None => 0,
        }
    }
}

/// The average the fallback reports: the re-derived sum over the total
/// count of insights (at least one).
pub open spec fn avg_parsed(insights: Seq<Seq<char>>, needle: Seq<char>) -> int {
    sum_parsed(insights, needle) / (if insights.len() == 0 {
        1int
    } else {
        insights.len() as int
    })
}

proof fn lemma_sum_parsed_bound(insights: Seq<Seq<char>>, needle: Seq<char>)
    ensures
        0 <= sum_parsed(insights, needle) <= insights.len() * 1_000_000_000_001_000_000,
    decreases insights.len(),
{
    if insights.len() > 0 {
        lemma_sum_parsed_bound(insights.drop_last(), needle);
        let last = insights.last();
        if contains_sub(last, needle) {
            let start = first_at(last, needle) + needle.len();
            let rest = last.subrange(start, last.len() as int);
            lemma_parse_fixed_bound(trim_spec(prefix_to(rest, ',')));
        }
        assert((insights.len() - 1) * 1_000_000_000_001_000_000 + 1_000_000_000_001_000_000
            == insights.len() * 1_000_000_000_001_000_000) by (nonlinear_arith);
    }
}

/// Computes the fallback average of a labelled value over insight texts.
pub fn avg_parsed_ratio(insights: &Vec<String>, needle: &str) -> (r: i64)
    ensures
        r == avg_parsed(insights.deep_view(), needle@),
        r >= 0,
{
    let mut total: u128 = 0;
    let n = insights.len();
    let mut i: usize = 0;
    proof {
        assert(insights.deep_view().subrange(0, 0) =~= Seq::<Seq<char>>::empty());
    }
    while i < n
        invariant
            n == insights@.len(),
            n == insights.deep_view().len(),
            0 <= i <= n,
            total == sum_parsed(insights.deep_view().subrange(0, i as int), needle@),
        decreases n - i,
    {
        proof {
            let sub = insights.deep_view().subrange(0, i + 1);
            assert(sub.drop_last() =~= insights.deep_view().subrange(0, i as int));
            assert(sub.last() == insights.deep_view()[i as int]);
            assert(insights.deep_view()[i as int] == insights@[i as int]@);
            lemma_sum_parsed_bound(insights.deep_view().subrange(0, i as int), needle@);
            assert((i as int) * 1_000_000_000_001_000_000 + 1_000_000_000_001_000_000 <= (
            u64::MAX as int) * 1_000_000_000_001_000_000) by (nonlinear_arith)
                requires 0 <= i as int, i as int + 1 <= u64::MAX as int;
            assert((u64::MAX as int) * 1_000_000_000_001_000_000 < u128::MAX as int)
                by (nonlinear_arith);
        }
        match parse_ratio(insights[i].as_str(), needle) {
            Some(v) => {
                proof {
                    let sv = insights.deep_view()[i as int];
                    lemma_parse_fixed_bound(
                        trim_spec(
                            prefix_to(
                                sv.subrange(first_at(sv, needle@) + needle@.len(), sv.len() as int),
                                ',',
                            ),
                        ),
                    );
                }
                total = total + (v as u128);
            },
            None => {},
        }
        i = i + 1;
    }
    proof {
        assert(insights.deep_view().subrange(0, n as int) =~= insights.deep_view());
        lemma_sum_parsed_bound(insights.deep_view(), needle@);
    }
    let divisor: u128 = if n == 0 {
        1
    } else {
        n as u128
    };
    let avg = total / divisor;
    proof {
        let si = sum_parsed(insights.deep_view(), needle@) as int;
        let d = divisor as int;
        vstd::arithmetic::div_mod::lemma_div_pos_is_pos(si, d);
        vstd::arithmetic::div_mod::lemma_div_is_ordered(si, (n as int) * 1_000_000_000_001_000_000, d);
        if n > 0 {
            assert((n as int) * 1_000_000_000_001_000_000 / (n as int)
                == 1_000_000_000_001_000_000) by (nonlinear_arith)
                requires n as int > 0;
        }
    }
    avg as i64
}

} // verus!
