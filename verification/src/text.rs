//! Verified text primitives: character classes, string equality and
//! substring search, decimal and hexadecimal rendering, all specified over
//! `Seq<char>` views.

use vstd::prelude::*;
use vstd::string::StrSliceExecFns;
use vstd::string::StringExecFns;

verus! {

/// True for code points below 128.
pub open spec fn is_ascii_char(c: char) -> bool {
    (c as u32) < 128
}

/// Every character of the sequence is ASCII.
pub open spec fn all_ascii(s: Seq<char>) -> bool {
    forall|i: int| 0 <= i < s.len() ==> is_ascii_char(#[trigger] s[i])
}

/// ASCII lowering of a single character: `A`..`Z` map to `a`..`z`, all
/// others stay.
pub open spec fn ascii_lower_char(c: char) -> char {
    if 'A' <= c && c <= 'Z' {
        (((c as u32) + 32) as u8) as char
    } else {
        c
    }
}

/// The White_Space code points that `split_whitespace` separates on.
pub open spec fn is_space_char(c: char) -> bool {
    ||| c == '\u{0009}'
    ||| c == '\u{000A}'
    ||| c == '\u{000B}'
    ||| c == '\u{000C}'
    ||| c == '\u{000D}'
    ||| c == ' '
    ||| c == '\u{0085}'
    ||| c == '\u{00A0}'
    ||| c == '\u{1680}'
    ||| c == '\u{2000}'
    ||| c == '\u{2001}'
    ||| c == '\u{2002}'
    ||| c == '\u{2003}'
    ||| c == '\u{2004}'
    ||| c == '\u{2005}'
    ||| c == '\u{2006}'
    ||| c == '\u{2007}'
    ||| c == '\u{2008}'
    ||| c == '\u{2009}'
    ||| c == '\u{200A}'
    ||| c == '\u{2028}'
    ||| c == '\u{2029}'
    ||| c == '\u{202F}'
    ||| c == '\u{205F}'
    ||| c == '\u{3000}'
}

/// Checks the White_Space property of a character.
pub fn is_space(c: char) -> (r: bool)
    ensures
        r == is_space_char(c),
{
    c == '\u{0009}' || c == '\u{000A}' || c == '\u{000B}' || c == '\u{000C}' || c == '\u{000D}'
        || c == ' ' || c == '\u{0085}' || c == '\u{00A0}' || c == '\u{1680}' || c == '\u{2000}'
        || c == '\u{2001}' || c == '\u{2002}' || c == '\u{2003}' || c == '\u{2004}'
        || c == '\u{2005}' || c == '\u{2006}' || c == '\u{2007}' || c == '\u{2008}'
        || c == '\u{2009}' || c == '\u{200A}' || c == '\u{2028}' || c == '\u{2029}'
        || c == '\u{202F}' || c == '\u{205F}' || c == '\u{3000}'
}

/// ASCII punctuation: `!`..`/`, `:`..`@`, `[`..`` ` ``, `{`..`~`.
pub open spec fn is_ascii_punct_char(c: char) -> bool {
    ||| ('!' <= c && c <= '/')
    ||| (':' <= c && c <= '@')
    ||| ('[' <= c && c <= '`')
    ||| ('{' <= c && c <= '~')
}

/// Checks whether a character is ASCII punctuation.
pub fn is_ascii_punct(c: char) -> (r: bool)
    ensures
        r == is_ascii_punct_char(c),
{
    ('!' <= c && c <= '/') || (':' <= c && c <= '@') || ('[' <= c && c <= '`') || ('{' <= c
        && c <= '~')
}

/// Number of bytes the UTF-8 encoding of a character takes.
pub open spec fn utf8_len_char(c: char) -> int {
    if (c as u32) < 0x80 {
        1
    } else if (c as u32) < 0x800 {
        2
    } else if (c as u32) < 0x10000 {
        3
    } else {
        4
    }
}

/// Total UTF-8 byte length of a character sequence.
pub open spec fn utf8_len(s: Seq<char>) -> int
    decreases s.len(),
{
    if s.len() == 0 {
        0
    } else {
        utf8_len(s.drop_last()) + utf8_len_char(s.last())
    }
}

/// Appending one character adds its width to the UTF-8 length.
pub proof fn lemma_utf8_len_push(s: Seq<char>, c: char)
    ensures
        utf8_len(s.push(c)) == utf8_len(s) + utf8_len_char(c),
{
    assert(s.push(c).drop_last() =~= s);
    assert(s.push(c).last() == c);
}

/// The UTF-8 length lies between the character count and four times it.
pub proof fn lemma_utf8_len_bounds(s: Seq<char>)
    ensures
        s.len() <= utf8_len(s) <= 4 * s.len(),
    decreases s.len(),
{
    if s.len() > 0 {
        lemma_utf8_len_bounds(s.drop_last());
    }
}

/// Computes the UTF-8 byte width of one character.
pub fn utf8_width(c: char) -> (r: u8)
    ensures
        r == utf8_len_char(c),
{
    let u: u32 = c as u32;
    if u < 0x80 {
        1
    } else if u < 0x800 {
        2
    } else if u < 0x10000 {
        3
    } else {
        4
    }
}

/// Character-wise equality of two string slices.
pub fn eq_str(a: &str, b: &str) -> (r: bool)
    ensures
        r == (a@ == b@),
{
    let alen = a.unicode_len();
    let blen = b.unicode_len();
    if alen != blen {
        return false;
    }
    let mut j: usize = 0;
    while j < alen
        invariant
            alen == a@.len(),
            alen == b@.len(),
            0 <= j <= alen,
            forall|k: int| 0 <= k < j ==> a@[k] == b@[k],
        decreases alen - j,
    {
        if a.get_char(j) != b.get_char(j) {
            return false;
        }
        j = j + 1;
    }
    proof {
        assert(a@ =~= b@);
    }
    true
}

/// The needle occurs in the haystack starting at position `i`.
pub open spec fn matches_at(h: Seq<char>, n: Seq<char>, i: int) -> bool {
    0 <= i && i + n.len() <= h.len() && h.subrange(i, i + n.len() as int) == n
}

/// The needle occurs somewhere in the haystack.
pub open spec fn contains_sub(h: Seq<char>, n: Seq<char>) -> bool {
    exists|i: int| matches_at(h, n, i)
}

fn match_here(h: &str, n: &str, i: usize, hl: usize, nl: usize) -> (r: bool)
    requires
        hl == h@.len(),
        nl == n@.len(),
        i + nl <= hl,
    ensures
        r == matches_at(h@, n@, i as int),
{
    let mut j: usize = 0;
    while j < nl
        invariant
            hl == h@.len(),
            nl == n@.len(),
            i + nl <= hl,
            0 <= j <= nl,
            forall|k: int| 0 <= k < j ==> h@[i + k] == n@[k],
        decreases nl - j,
    {
        if h.get_char(i + j) != n.get_char(j) {
            proof {
                assert(h@.subrange(i as int, i + nl as int)[j as int] == h@[i + j]);
            }
            return false;
        }
        j = j + 1;
    }
    proof {
        assert(h@.subrange(i as int, i + nl as int) =~= n@);
    }
    true
}

/// First-match substring search: returns the least index at which the
/// needle occurs, if it occurs at all.
pub fn find_sub(h: &str, n: &str) -> (r: Option<usize>)
    ensures
        match r {
            Some(i) => matches_at(h@, n@, i as int) && forall|k: int|
                0 <= k < i ==> !matches_at(h@, n@, k),
            None => !contains_sub(h@, n@),
        },
{
    let hl = h.unicode_len();
    let nl = n.unicode_len();
    if nl > hl {
        proof {
            assert forall|i: int| !matches_at(h@, n@, i) by {}
        }
        return None;
    }
    if nl == 0 {
        proof {
            assert(h@.subrange(0, 0) =~= n@);
        }
        return Some(0);
    }
    let mut i: usize = 0;
    while i <= hl - nl
        invariant
            hl == h@.len(),
            nl == n@.len(),
            1 <= nl <= hl,
            0 <= i <= hl - nl + 1,
            forall|k: int| 0 <= k < i ==> !matches_at(h@, n@, k),
        decreases hl - nl - i + 1,
    {
        if match_here(h, n, i, hl, nl) {
            return Some(i);
        }
        i = i + 1;
    }
    proof {
        assert forall|k: int| !matches_at(h@, n@, k) by {
            if 0 <= k < i {
            }
        }
    }
    None
}

/// The needle is a prefix of the haystack.
pub open spec fn has_prefix(h: Seq<char>, n: Seq<char>) -> bool {
    matches_at(h, n, 0)
}

/// Prefix test.
pub fn str_starts_with(h: &str, n: &str) -> (r: bool)
    ensures
        r == has_prefix(h@, n@),
{
    let hl = h.unicode_len();
    let nl = n.unicode_len();
    if nl > hl {
        return false;
    }
    match_here(h, n, 0, hl, nl)
}

/// Substring containment test.
pub fn str_contains(h: &str, n: &str) -> (r: bool)
    ensures
        r == contains_sub(h@, n@),
{
    match find_sub(h, n) {
        Some(_) => true,
        None => false,
    }
}

/// The decimal digit character for a value in `0..10`.
pub open spec fn dec_digit(d: int) -> char
    recommends
        0 <= d < 10,
{
    if d == 0 {
        '0'
    } else if d == 1 {
        '1'
    } else if d == 2 {
        '2'
    } else if d == 3 {
        '3'
    } else if d == 4 {
        '4'
    } else if d == 5 {
        '5'
    } else if d == 6 {
        '6'
    } else if d == 7 {
        '7'
    } else if d == 8 {
        '8'
    } else {
        '9'
    }
}

/// Decimal rendering of a non-negative integer, most significant digit
/// first, without leading zeros (except for zero itself).
pub open spec fn dec_str(n: int) -> Seq<char>
    recommends
        n >= 0,
    decreases n,
{
    if n < 10 {
        seq![dec_digit(n)]
    } else {
        dec_str(n / 10).push(dec_digit(n % 10))
    }
}

fn digit_str(d: u64) -> (s: &'static str)
    requires
        d < 10,
    ensures
        s@ == seq![dec_digit(d as int)],
{
    proof {
        reveal_strlit("0");
        reveal_strlit("1");
        reveal_strlit("2");
        reveal_strlit("3");
        reveal_strlit("4");
        reveal_strlit("5");
        reveal_strlit("6");
        reveal_strlit("7");
        reveal_strlit("8");
        reveal_strlit("9");
    }
    if d == 0 {
        "0"
    } else if d == 1 {
        "1"
    } else if d == 2 {
        "2"
    } else if d == 3 {
        "3"
    } else if d == 4 {
        "4"
    } else if d == 5 {
        "5"
    } else if d == 6 {
        "6"
    } else if d == 7 {
        "7"
    } else if d == 8 {
        "8"
    } else {
        "9"
    }
}

/// Renders a `u64` in decimal.
pub fn u64_to_string(n: u64) -> (s: String)
    ensures
        s@ == dec_str(n as int),
    decreases n,
{
    if n < 10 {
        String::from_str(digit_str(n))
    } else {
        let mut s = u64_to_string(n / 10);
        s.append(digit_str(n % 10));
        proof {
            assert(dec_str(n as int) =~= dec_str(n as int / 10) + seq![
                dec_digit(n as int % 10),
            ]);
        }
        s
    }
}

/// Renders a `usize` in decimal.
pub fn usize_to_string(n: usize) -> (s: String)
    ensures
        s@ == dec_str(n as int),
{
    u64_to_string(n as u64)
}

/// The hexadecimal digit character for a value in `0..16`.
pub open spec fn hex_digit(d: int) -> char
    recommends
        0 <= d < 16,
{
    if d < 10 {
        dec_digit(d)
    } else if d == 10 {
        'a'
    } else if d == 11 {
        'b'
    } else if d == 12 {
        'c'
    } else if d == 13 {
        'd'
    } else if d == 14 {
        'e'
    } else {
        'f'
    }
}

/// Lowercase hexadecimal rendering of a byte sequence, two digits per
/// byte.
pub open spec fn hex_lower(b: Seq<u8>) -> Seq<char>
    decreases b.len(),
{
    if b.len() == 0 {
        Seq::empty()
    } else {
        hex_lower(b.drop_last()) + seq![
            hex_digit(b.last() as int / 16),
            hex_digit(b.last() as int % 16),
        ]
    }
}

fn hex_digit_str(d: u8) -> (s: &'static str)
    requires
        d < 16,
    ensures
        s@ == seq![hex_digit(d as int)],
{
    if d < 10 {
        digit_str(d as u64)
    } else {
        proof {
            reveal_strlit("a");
            reveal_strlit("b");
            reveal_strlit("c");
            reveal_strlit("d");
            reveal_strlit("e");
            reveal_strlit("f");
        }
        if d == 10 {
            "a"
        } else if d == 11 {
            "b"
        } else if d == 12 {
            "c"
        } else if d == 13 {
            "d"
        } else if d == 14 {
            "e"
        } else {
            "f"
        }
    }
}

/// Renders a byte vector as lowercase hexadecimal text.
pub fn hex_of_bytes(b: &Vec<u8>) -> (s: String)
    ensures
        s@ == hex_lower(b@),
        s@.len() == 2 * b@.len(),
{
    let mut s = String::new();
    let mut i: usize = 0;
    proof {
        assert(b@.subrange(0, 0) =~= Seq::<u8>::empty());
    }
    while i < b.len()
        invariant
            0 <= i <= b@.len(),
            s@ == hex_lower(b@.subrange(0, i as int)),
            s@.len() == 2 * i,
        decreases b@.len() - i,
    {
        let byte = b[i];
        s.append(hex_digit_str(byte / 16));
        s.append(hex_digit_str(byte % 16));
        i = i + 1;
        proof {
            let pre = b@.subrange(0, i - 1);
            let cur = b@.subrange(0, i as int);
            assert(cur.drop_last() =~= pre);
            assert(cur.last() == b@[i - 1]);
            assert(s@ =~= hex_lower(cur));
        }
    }
    proof {
        assert(b@.subrange(0, b@.len() as int) =~= b@);
    }
    s
}

/// Rounded hundredths of a fixed-point value: nearest, ties to even.
pub open spec fn hundredths(r: int) -> int
    recommends
        r >= 0,
{
    let q = r / 10_000;
    let rem = r % 10_000;
    if rem > 5_000 {
        q + 1
    } else if rem == 5_000 && q % 2 == 1 {
        q + 1
    } else {
        q
    }
}

/// Text of a non-negative fixed-point value rendered with exactly two
/// decimal places.
pub open spec fn two_dec_str(r: int) -> Seq<char>
    recommends
        r >= 0,
{
    let h = hundredths(r);
    let whole = h / 100;
    let frac = h % 100;
    dec_str(whole) + seq!['.'] + (if frac < 10 {
        seq!['0', dec_digit(frac)]
    } else {
        dec_str(frac)
    })
}

/// Renders a non-negative fixed-point value with two decimal places, as a
/// `{:.2}` format of the corresponding real number would.
pub fn format_two_dec(r: i64) -> (s: String)
    requires
        r >= 0,
    ensures
        s@ == two_dec_str(r as int),
{
    let q: i64 = r / 10_000;
    let rem: i64 = r % 10_000;
    let h: i64 = if rem > 5_000 {
        q + 1
    } else if rem == 5_000 && q % 2 == 1 {
        q + 1
    } else {
        q
    };
    let whole: i64 = h / 100;
    let frac: i64 = h % 100;
    let mut s = u64_to_string(whole as u64);
    proof {
        reveal_strlit(".");
    }
    s.append(".");
    if frac < 10 {
        proof {
            reveal_strlit("0");
        }
        s.append("0");
        s.append(digit_str(frac as u64));
    } else {
        let t = u64_to_string(frac as u64);
        s.append(t.as_str());
    }
    proof {
        assert(s@ =~= two_dec_str(r as int));
    }
    s
}

} // verus!
