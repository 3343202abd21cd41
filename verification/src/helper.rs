//! Call layer: the host services a plugin calls back into.
//!
//! Text is handled character-wise: a string that crosses the boundary is
//! turned into its characters once ([`str_to_chars`]) and every service —
//! predicate matching, fuzzy-alignment scoring, edit distance, argument
//! lookup, command-template substitution, result-line formatting, text
//! coercion, and theme lookup — works on and produces character vectors.

use vstd::prelude::*;
use vstd::string::StrSliceExecFns;

use crate::types::property_value_type;
use crate::types::spec_property_value_type;
use crate::types::Property;
use crate::types::PropertyType;
use crate::types::RofiHelperExecuteContext;
use crate::types::RofiIntMatcher;
use crate::types::RofiRangePair;

verus! {

/// The characters of a string, in order.
pub fn str_to_chars(s: &str) -> (r: Vec<char>)
    ensures
        r@ == s@,
{
    let n = s.unicode_len();
    let mut r: Vec<char> = Vec::new();
    let mut i: usize = 0;
    while i < n
        invariant
            n == s@.len(),
            i <= n,
            r@ == s@.subrange(0, i as int),
        decreases n - i,
    {
        r.push(s.get_char(i));
        i += 1;
        proof {
            assert(r@ =~= s@.subrange(0, i as int));
        }
    }
    proof {
        assert(r@ =~= s@);
    }
    r
}

/// Relies on String's FromIterator: collecting characters builds the
/// string of exactly those characters.
#[verifier::external_body]
fn chars_to_string(v: &Vec<char>) -> (r: String)
    ensures
        r@ == v@,
{
    v.iter().collect()
}

/// A character folded to lower case, for the ASCII letters.
pub open spec fn spec_lower_char(c: char) -> char {
    if 65 <= c as u32 <= 90 {
        (c as u32 + 32) as char
    } else {
        c
    }
}

/// A character folded to lower case, for the ASCII letters.
pub fn lower_char(c: char) -> (r: char)
    ensures
        r == spec_lower_char(c),
{
    let u = c as u32;
    if 65 <= u && u <= 90 {
        let l: u8 = (u + 32) as u8;
        l as char
    } else {
        c
    }
}

/// A character sequence folded to lower case, character by character.
pub open spec fn spec_lower(s: Seq<char>) -> Seq<char> {
    s.map_values(|c: char| spec_lower_char(c))
}

/// A character vector folded to lower case, character by character.
pub fn lower_chars(s: &Vec<char>) -> (r: Vec<char>)
    ensures
        r@ == spec_lower(s@),
{
    let mut r: Vec<char> = Vec::new();
    let mut i: usize = 0;
    while i < s.len()
        invariant
            i <= s@.len(),
            r@ == spec_lower(s@.subrange(0, i as int)),
        decreases s@.len() - i,
    {
        r.push(lower_char(s[i]));
        i += 1;
        proof {
            assert(r@ =~= spec_lower(s@.subrange(0, i as int)));
        }
    }
    proof {
        assert(r@ =~= spec_lower(s@));
    }
    r
}

/// Whether `pat` occurs in `hay` starting at position `i`.
pub open spec fn spec_match_at(hay: Seq<char>, pat: Seq<char>, i: int) -> bool {
    &&& 0 <= i
    &&& i + pat.len() <= hay.len()
    &&& hay.subrange(i, i + pat.len() as int) == pat
}

/// Whether `pat` occurs anywhere in `hay`.
pub open spec fn spec_contains_seq(hay: Seq<char>, pat: Seq<char>) -> bool {
    exists|i: int| spec_match_at(hay, pat, i)
}

/// Whether `pat` occurs in `hay` starting at position `i`.
fn match_at(hay: &Vec<char>, pat: &Vec<char>, i: usize) -> (r: bool)
    requires
        i + pat@.len() <= hay@.len(),
    ensures
        r == spec_match_at(hay@, pat@, i as int),
{
    let hn: usize = hay.len();
    let mut j: usize = 0;
    while j < pat.len()
        invariant
            i + pat@.len() <= hay@.len(),
            hn == hay@.len(),
            j <= pat@.len(),
            hay@.subrange(i as int, i as int + j as int) == pat@.subrange(0, j as int),
        decreases pat@.len() - j,
    {
        if hay[i + j] != pat[j] {
            proof {
                assert(hay@[i as int + j as int] != pat@[j as int]);
                assert(!spec_match_at(hay@, pat@, i as int)) by {
                    if spec_match_at(hay@, pat@, i as int) {
                        let sub = hay@.subrange(i as int, i + pat@.len() as int);
                        assert(sub[j as int] == pat@[j as int]);
                    }
                }
            }
            return false;
        }
        j += 1;
        proof {
            assert(hay@.subrange(i as int, i as int + j as int) =~= pat@.subrange(0, j as int));
        }
    }
    proof {
        assert(hay@.subrange(i as int, i + pat@.len() as int) =~= pat@);
    }
    true
}

/// Whether `pat` occurs anywhere in `hay`.
pub fn seq_contains(hay: &Vec<char>, pat: &Vec<char>) -> (r: bool)
    ensures
        r == spec_contains_seq(hay@, pat@),
{
    if pat.len() > hay.len() {
        proof {
            assert(!spec_contains_seq(hay@, pat@));
        }
        return false;
    }
    let last = hay.len() - pat.len();
    let mut i: usize = 0;
    loop
        invariant
            pat@.len() <= hay@.len(),
            last == hay@.len() - pat@.len(),
            i <= last,
            forall|k: int| 0 <= k < i as int ==> !spec_match_at(hay@, pat@, k),
        decreases last - i,
    {
        if match_at(hay, pat, i) {
            return true;
        }
        if i == last {
            proof {
                assert forall|k: int| !spec_match_at(hay@, pat@, k) by {
                    if 0 <= k <= last as int {
                    }
                }
            }
            return false;
        }
        i += 1;
    }
}

/// The text a predicate inspects: the entry itself for a case-sensitive
/// predicate, the entry folded to lower case otherwise.
pub open spec fn spec_matcher_input(m: RofiIntMatcher, entry: Seq<char>) -> Seq<char> {
    if m.case_sensitive {
        entry
    } else {
        spec_lower(entry)
    }
}

/// Whether one predicate accepts an entry: its pattern is found — or, for
/// a negated predicate, not found — in the inspected text.
pub open spec fn spec_matcher_matches(m: RofiIntMatcher, entry: Seq<char>) -> bool {
    spec_contains_seq(spec_matcher_input(m, entry), m.pattern@) != m.invert
}

/// Whether every predicate of a list accepts an entry.
pub open spec fn spec_tokens_match(tokens: Seq<RofiIntMatcher>, entry: Seq<char>) -> bool {
    forall|i: int| 0 <= i < tokens.len() ==> spec_matcher_matches(tokens[i], entry)
}

/// Whether one predicate accepts an entry.
pub fn matcher_matches(m: &RofiIntMatcher, entry: &Vec<char>) -> (r: bool)
    ensures
        r == spec_matcher_matches(*m, entry@),
{
    let found = if m.case_sensitive {
        seq_contains(entry, &m.pattern)
    } else {
        let folded = lower_chars(entry);
        seq_contains(&folded, &m.pattern)
    };
    found != m.invert
}

/// Whether every predicate of a list accepts an entry.
pub fn token_match(tokens: &Vec<RofiIntMatcher>, input: &Vec<char>) -> (r: bool)
    ensures
        r == spec_tokens_match(tokens@, input@),
{
    let mut i: usize = 0;
    while i < tokens.len()
        invariant
            i <= tokens@.len(),
            forall|k: int| 0 <= k < i as int ==> spec_matcher_matches(tokens@[k], input@),
        decreases tokens@.len() - i,
    {
        if !matcher_matches(&tokens[i], input) {
            return false;
        }
        i += 1;
    }
    true
}

/// The score reported when a pattern cannot be aligned at all.
pub const FUZZY_MIN_SCORE: i32 = -1000000;

/// Longest text the fuzzy scorer aligns against.
pub const FUZZY_MAX_TEXT: usize = 256;

/// Penalty per text character skipped before the first match.
pub const LEADING_GAP_SCORE: i32 = -4;

/// Penalty per text character skipped between matches.
pub const GAP_SCORE: i32 = -5;

/// Bonus for a match at the start of a word.
pub const WORD_START_SCORE: i32 = 50;

/// Bonus for a match at a camel-case boundary.
pub const CAMEL_SCORE: i32 = 40;

/// Bonus for matching a non-word character.
pub const NON_WORD_SCORE: i32 = 30;

/// Bonus for a match directly after the previous one.
pub const CONSECUTIVE_SCORE: i32 = 45;

/// The positional bonus of the first pattern character is multiplied by
/// this, since it carries the most significance.
pub const PATTERN_START_MULTIPLIER: i32 = 2;

/// The larger of two integers.
pub open spec fn spec_imax(a: int, b: int) -> int {
    if a >= b {
        a
    } else {
        b
    }
}

/// The smaller of two integers.
pub open spec fn spec_imin(a: int, b: int) -> int {
    if a <= b {
        a
    } else {
        b
    }
}

/// Whether a character counts as part of a word: an ASCII letter or
/// digit.
pub open spec fn spec_is_word_char(c: char) -> bool {
    ||| 97 <= c as u32 <= 122
    ||| 65 <= c as u32 <= 90
    ||| 48 <= c as u32 <= 57
}

/// Whether a character is an ASCII lower-case letter.
pub open spec fn spec_is_lower_char(c: char) -> bool {
    97 <= c as u32 <= 122
}

/// Whether a character is an ASCII upper-case letter.
pub open spec fn spec_is_upper_char(c: char) -> bool {
    65 <= c as u32 <= 90
}

/// The positional bonus of matching `t[j]`: word starts score highest,
/// camel-case boundaries next, non-word characters keep a small bonus, and
/// a position inside a word scores nothing.
pub open spec fn spec_char_score(t: Seq<char>, j: int) -> int {
    if !spec_is_word_char(t[j]) {
        NON_WORD_SCORE as int
    } else if j == 0 {
        WORD_START_SCORE as int
    } else if !spec_is_word_char(t[j - 1]) {
        WORD_START_SCORE as int
    } else if spec_is_lower_char(t[j - 1]) && spec_is_upper_char(t[j]) {
        CAMEL_SCORE as int
    } else {
        0
    }
}

/// The positional bonus of matching pattern position `i` at text position
/// `j`; the first pattern character's bonus is multiplied.
pub open spec fn spec_pattern_score(t: Seq<char>, i: int, j: int) -> int {
    if i == 0 {
        PATTERN_START_MULTIPLIER as int * spec_char_score(t, j)
    } else {
        spec_char_score(t, j)
    }
}

/// The best accumulated score aligning `p[0..=i]` against `t` with `p[i]`
/// matched exactly at `t[j]`; [`FUZZY_MIN_SCORE`] when no such alignment
/// exists.
pub open spec fn spec_align(p: Seq<char>, t: Seq<char>, i: int, j: int) -> int
    decreases i, j, 0int,
{
    if p[i] != t[j] {
        FUZZY_MIN_SCORE as int
    } else if i <= 0 {
        LEADING_GAP_SCORE as int * j + spec_pattern_score(t, i, j)
    } else if j <= 0 {
        FUZZY_MIN_SCORE as int
    } else {
        spec_imax(
            spec_align(p, t, i - 1, j - 1) + CONSECUTIVE_SCORE as int,
            spec_align_gap(p, t, i - 1, j - 1) + spec_pattern_score(t, i, j),
        )
    }
}

/// The best accumulated score aligning `p[0..=i]` with `p[i]` matched at
/// or before `t[j]`, paying the gap penalty for every text character
/// skipped after the match.
pub open spec fn spec_align_gap(p: Seq<char>, t: Seq<char>, i: int, j: int) -> int
    decreases i, j, 1int,
{
    if j <= 0 {
        spec_align(p, t, i, j)
    } else {
        spec_imax(spec_align(p, t, i, j), spec_align_gap(p, t, i, j - 1) + GAP_SCORE as int)
    }
}

/// Every alignment score stays within a narrow band around
/// [`FUZZY_MIN_SCORE`]: per pattern position the band widens by at most
/// the largest gap run downwards and the largest bonus upwards.
pub proof fn lemma_align_bounds(p: Seq<char>, t: Seq<char>, i: int, j: int)
    requires
        0 <= i,
        0 <= j,
        j < FUZZY_MAX_TEXT as int,
    ensures
        FUZZY_MIN_SCORE as int - 1300 * i <= spec_align(p, t, i, j) <= 100 + 145 * i,
        FUZZY_MIN_SCORE as int - 1300 * i <= spec_align_gap(p, t, i, j) <= 100 + 145 * i,
    decreases i, j,
{
    if i > 0 && j > 0 {
        lemma_align_bounds(p, t, i - 1, j - 1);
    }
    if j > 0 {
        lemma_align_bounds(p, t, i, j - 1);
    }
}

/// The fuzzy-alignment score of `pattern` against `text`: the best
/// accumulated alignment, with the gap penalty paid to the end of the
/// text.  An empty pattern scores zero; a pattern that cannot fit, or a
/// text longer than [`FUZZY_MAX_TEXT`], scores [`FUZZY_MIN_SCORE`].
pub open spec fn spec_fuzzy_score(p: Seq<char>, t: Seq<char>) -> int {
    if p.len() == 0 {
        0
    } else if t.len() == 0 || p.len() > t.len() || t.len() > FUZZY_MAX_TEXT as nat {
        FUZZY_MIN_SCORE as int
    } else {
        spec_align_gap(p, t, p.len() - 1, t.len() - 1)
    }
}

/// The larger of two scores.
fn imax32(a: i32, b: i32) -> (r: i32)
    ensures
        r as int == spec_imax(a as int, b as int),
{
    if a >= b {
        a
    } else {
        b
    }
}

/// The positional bonus of matching `text[j]`.
fn char_score_at(text: &Vec<char>, j: usize) -> (r: i32)
    requires
        j < text@.len(),
    ensures
        r as int == spec_char_score(text@, j as int),
        0 <= r <= WORD_START_SCORE,
{
    let c = text[j];
    let cu = c as u32;
    let word = (97 <= cu && cu <= 122) || (65 <= cu && cu <= 90) || (48 <= cu && cu <= 57);
    if !word {
        NON_WORD_SCORE
    } else if j == 0 {
        WORD_START_SCORE
    } else {
        let prev = text[j - 1];
        let pu = prev as u32;
        let prev_word = (97 <= pu && pu <= 122) || (65 <= pu && pu <= 90) || (48 <= pu && pu
            <= 57);
        if !prev_word {
            WORD_START_SCORE
        } else if 97 <= pu && pu <= 122 && 65 <= cu && cu <= 90 {
            CAMEL_SCORE
        } else {
            0
        }
    }
}

/// The positional bonus of matching pattern position `i` at `text[j]`.
fn pattern_score_at(text: &Vec<char>, i: usize, j: usize) -> (r: i32)
    requires
        j < text@.len(),
    ensures
        r as int == spec_pattern_score(text@, i as int, j as int),
        0 <= r <= PATTERN_START_MULTIPLIER * WORD_START_SCORE,
{
    let base = char_score_at(text, j);
    if i == 0 {
        PATTERN_START_MULTIPLIER * base
    } else {
        base
    }
}

/// The fuzzy-alignment score of `pattern` against `text`; see
/// [`spec_fuzzy_score`].
///
/// The alignment prefers matches at word starts and camel-case
/// boundaries, rewards consecutive matches, and penalises every skipped
/// text character; the recurrence is evaluated row by row, keeping one
/// row of the alignment matrix.
pub fn scorer_fuzzy_evaluate(pattern: &Vec<char>, text: &Vec<char>) -> (r: i32)
    ensures
        r as int == spec_fuzzy_score(pattern@, text@),
{
    let m = pattern.len();
    let n = text.len();
    if m == 0 {
        return 0;
    }
    if n == 0 || m > n || n > FUZZY_MAX_TEXT {
        return FUZZY_MIN_SCORE;
    }
    let ghost p = pattern@;
    let ghost t = text@;
    // Row for the first pattern character: only leading gaps before it.
    let mut prev: Vec<i32> = Vec::new();
    let mut j: usize = 0;
    while j < n
        invariant
            p == pattern@,
            t == text@,
            n == t.len(),
            m == p.len(),
            1 <= m,
            n <= FUZZY_MAX_TEXT,
            j <= n,
            prev@.len() == j as int,
            forall|k: int| 0 <= k < j as int ==> prev@[k] as int == spec_align(p, t, 0, k),
        decreases n - j,
    {
        let v: i32 = if pattern[0] == text[j] {
            LEADING_GAP_SCORE * (j as i32) + pattern_score_at(text, 0, j)
        } else {
            FUZZY_MIN_SCORE
        };
        prev.push(v);
        j += 1;
    }
    let mut i: usize = 1;
    while i < m
        invariant
            p == pattern@,
            t == text@,
            n == t.len(),
            m == p.len(),
            m <= n <= FUZZY_MAX_TEXT,
            1 <= i <= m,
            prev@.len() == n as int,
            forall|k: int| 0 <= k < n as int ==> prev@[k] as int == spec_align(p, t, i as int - 1, k),
        decreases m - i,
    {
        let mut row: Vec<i32> = Vec::new();
        // Invariant below: once `j >= 1`, `g` is the best gapped score of
        // the previous pattern character at or before `t[j - 1]`.
        let mut g: i32 = 0;
        let mut j: usize = 0;
        while j < n
            invariant
                p == pattern@,
                t == text@,
                n == t.len(),
                m == p.len(),
                m <= n <= FUZZY_MAX_TEXT,
                1 <= i < m,
                prev@.len() == n as int,
                forall|k: int|
                    0 <= k < n as int ==> prev@[k] as int == spec_align(p, t, i as int - 1, k),
                j <= n,
                row@.len() == j as int,
                forall|k: int| 0 <= k < j as int ==> row@[k] as int == spec_align(p, t, i as int, k),
                j >= 1 ==> g as int == spec_align_gap(p, t, i as int - 1, j as int - 1),
            decreases n - j,
        {
            if j == 0 {
                row.push(FUZZY_MIN_SCORE);
                g = prev[0];
            } else {
                proof {
                    lemma_align_bounds(p, t, i as int - 1, j as int - 1);
                }
                let v: i32 = if pattern[i] == text[j] {
                    imax32(prev[j - 1] + CONSECUTIVE_SCORE, g + pattern_score_at(text, i, j))
                } else {
                    FUZZY_MIN_SCORE
                };
                row.push(v);
                proof {
                    lemma_align_bounds(p, t, i as int - 1, j as int);
                }
                g = imax32(prev[j], g + GAP_SCORE);
            }
            j += 1;
        }
        prev = row;
        i += 1;
    }
    // Pay the gap penalty to the end of the text.
    let mut total: i32 = prev[0];
    let mut j: usize = 1;
    while j < n
        invariant
            p == pattern@,
            t == text@,
            n == t.len(),
            m == p.len(),
            1 <= m,
            m <= n <= FUZZY_MAX_TEXT,
            1 <= j <= n,
            prev@.len() == n as int,
            forall|k: int| 0 <= k < n as int ==> prev@[k] as int == spec_align(p, t, m as int - 1, k),
            total as int == spec_align_gap(p, t, m as int - 1, j as int - 1),
        decreases n - j,
    {
        proof {
            lemma_align_bounds(p, t, m as int - 1, j as int - 1);
        }
        total = imax32(prev[j], total + GAP_SCORE);
        j += 1;
    }
    total
}

/// The edit distance between the first `i` characters of `a` and the
/// first `j` characters of `b`: insertions, deletions and substitutions
/// all cost one.
pub open spec fn spec_levenshtein(a: Seq<char>, b: Seq<char>, i: int, j: int) -> int
    decreases i, j,
{
    if i <= 0 {
        j
    } else if j <= 0 {
        i
    } else {
        spec_imin(
            spec_imin(
                spec_levenshtein(a, b, i - 1, j) + 1,
                spec_levenshtein(a, b, i, j - 1) + 1,
            ),
            spec_levenshtein(a, b, i - 1, j - 1) + if a[i - 1] == b[j - 1] {
                0int
            } else {
                1int
            },
        )
    }
}

/// The edit distance never drops below zero nor exceeds the longer
/// prefix.
pub proof fn lemma_levenshtein_bounds(a: Seq<char>, b: Seq<char>, i: int, j: int)
    requires
        0 <= i,
        0 <= j,
    ensures
        0 <= spec_levenshtein(a, b, i, j) <= spec_imax(i, j),
    decreases i, j,
{
    if i > 0 && j > 0 {
        lemma_levenshtein_bounds(a, b, i - 1, j);
        lemma_levenshtein_bounds(a, b, i, j - 1);
        lemma_levenshtein_bounds(a, b, i - 1, j - 1);
    }
}

/// The smaller of two distances.
fn umin32(a: u32, b: u32) -> (r: u32)
    ensures
        r as int == spec_imin(a as int, b as int),
{
    if a <= b {
        a
    } else {
        b
    }
}

/// The character-wise edit distance between `needle` and `haystack`; see
/// [`spec_levenshtein`].  Evaluated with a single matrix row.
pub fn levenshtein(needle: &Vec<char>, haystack: &Vec<char>) -> (r: u32)
    requires
        needle@.len() < u32::MAX,
        haystack@.len() < u32::MAX,
    ensures
        r as int == spec_levenshtein(
            needle@,
            haystack@,
            needle@.len() as int,
            haystack@.len() as int,
        ),
{
    let ghost a = needle@;
    let ghost b = haystack@;
    let m = needle.len();
    let n = haystack.len();
    let mut row: Vec<u32> = Vec::new();
    let mut j: usize = 0;
    while j <= n
        invariant
            n == b.len(),
            n < u32::MAX,
            j <= n + 1,
            row@.len() == j as int,
            forall|k: int| 0 <= k < j as int ==> row@[k] as int == k,
        decreases n + 1 - j,
    {
        row.push(j as u32);
        j += 1;
    }
    let mut i: usize = 1;
    while i <= m
        invariant
            a == needle@,
            b == haystack@,
            m == a.len(),
            n == b.len(),
            m < u32::MAX,
            n < u32::MAX,
            1 <= i <= m + 1,
            row@.len() == n as int + 1,
            forall|k: int|
                0 <= k <= n as int ==> row@[k] as int == spec_levenshtein(a, b, i as int - 1, k),
        decreases m + 1 - i,
    {
        let mut prev_diag: u32 = row[0];
        row.set(0, i as u32);
        let mut j: usize = 1;
        while j <= n
            invariant
                a == needle@,
                b == haystack@,
                m == a.len(),
                n == b.len(),
                m < u32::MAX,
                n < u32::MAX,
                1 <= i <= m,
                1 <= j <= n + 1,
                row@.len() == n as int + 1,
                forall|k: int|
                    0 <= k < j as int ==> row@[k] as int == spec_levenshtein(a, b, i as int, k),
                forall|k: int|
                    j as int <= k <= n as int ==> row@[k] as int == spec_levenshtein(
                        a,
                        b,
                        i as int - 1,
                        k,
                    ),
                prev_diag as int == spec_levenshtein(a, b, i as int - 1, j as int - 1),
            decreases n + 1 - j,
        {
            let temp = row[j];
            proof {
                lemma_levenshtein_bounds(a, b, i as int - 1, j as int);
                lemma_levenshtein_bounds(a, b, i as int, j as int - 1);
                lemma_levenshtein_bounds(a, b, i as int - 1, j as int - 1);
            }
            let del = temp + 1;
            let ins = row[j - 1] + 1;
            let cost: u32 = if needle[i - 1] == haystack[j - 1] {
                0
            } else {
                1
            };
            let sub = prev_diag + cost;
            let v = umin32(umin32(del, ins), sub);
            row.set(j, v);
            prev_diag = temp;
            j += 1;
        }
        i += 1;
    }
    row[n]
}

/// The length of the field at the head of `s`: the characters before
/// the first separator.
pub open spec fn spec_field_len(s: Seq<char>, sep: char) -> nat
    decreases s.len(),
{
    if s.len() == 0 || s[0] == sep {
        0
    } else {
        1 + spec_field_len(s.drop_first(), sep)
    }
}

/// A scan that saw `m` other characters and then a separator (or the
/// end) has measured the head field.
pub proof fn lemma_field_len_char(s: Seq<char>, sep: char, m: int)
    requires
        0 <= m <= s.len(),
        forall|k: int| 0 <= k < m ==> s[k] != sep,
        m == s.len() || s[m] == sep,
    ensures
        spec_field_len(s, sep) == m,
    decreases m,
{
    if m == 0 {
    } else {
        assert(s[0] != sep);
        assert forall|k: int| 0 <= k < m - 1 implies s.drop_first()[k] != sep by {
            assert(s.drop_first()[k] == s[k + 1]);
        }
        if m < s.len() {
            assert(s.drop_first()[m - 1] == s[m]);
        }
        lemma_field_len_char(s.drop_first(), sep, m - 1);
    }
}

/// The fields of `s`: the maximal separator-free substrings, in order;
/// runs of separators collapse.
pub open spec fn spec_split(s: Seq<char>, sep: char) -> Seq<Seq<char>>
    decreases s.len(),
{
    if s.len() == 0 {
        Seq::empty()
    } else if s[0] == sep {
        spec_split(s.drop_first(), sep)
    } else {
        let wl = spec_imin(spec_field_len(s, sep) as int, s.len() as int);
        seq![s.subrange(0, wl)] + spec_split(s.skip(wl), sep)
    }
}

/// The predicate `tokenize` builds for one word: a leading `-` negates
/// the predicate, and a case-insensitive pattern is stored folded to
/// lower case.
pub open spec fn spec_matcher_for(word: Seq<char>, case_sensitive: bool, m: RofiIntMatcher) -> bool {
    let inv = word.len() > 0 && word[0] == '-';
    let raw = if inv {
        word.drop_first()
    } else {
        word
    };
    &&& m.case_sensitive == case_sensitive
    &&& m.invert == inv
    &&& m.pattern@ == (if case_sensitive {
        raw
    } else {
        spec_lower(raw)
    })
}

/// Splits free-text input on spaces into match predicates: one predicate
/// per word, negated by a leading `-`, folded to lower case unless
/// matching case-sensitively.
pub fn tokenize(input: &Vec<char>, case_sensitive: bool) -> (r: Vec<RofiIntMatcher>)
    ensures
        r@.len() == spec_split(input@, ' ').len(),
        forall|k: int|
            0 <= k < r@.len() ==> spec_matcher_for(
                spec_split(input@, ' ')[k],
                case_sensitive,
                r@[k],
            ),
{
    let ghost full = input@;
    let ghost words = spec_split(full, ' ');
    let n = input.len();
    let mut r: Vec<RofiIntMatcher> = Vec::new();
    let mut i: usize = 0;
    proof {
        assert(full.skip(0) =~= full);
        assert(words.skip(0) =~= words);
    }
    while i < n
        invariant
            full == input@,
            words == spec_split(full, ' '),
            n == full.len(),
            i <= n,
            r@.len() <= words.len(),
            spec_split(full.skip(i as int), ' ') == words.skip(r@.len() as int),
            forall|k: int| 0 <= k < r@.len() ==> spec_matcher_for(words[k], case_sensitive, r@[k]),
        decreases n - i,
    {
        if input[i] == ' ' {
            proof {
                assert(full.skip(i as int).drop_first() =~= full.skip(i as int + 1));
            }
            i += 1;
        } else {
            let start = i;
            let mut j: usize = i + 1;
            while j < n && input[j] != ' '
                invariant
                    full == input@,
                    n == full.len(),
                    start < j <= n,
                    forall|k: int| (start as int) < k < (j as int) ==> full[k] != ' ',
                    full[start as int] != ' ',
                decreases n - j,
            {
                j += 1;
            }
            proof {
                let tail = full.skip(start as int);
                assert forall|k: int| 0 <= k < j as int - start as int implies tail[k] != ' ' by {
                    assert(tail[k] == full[start as int + k]);
                }
                if (j as int) < n as int {
                    assert(tail[j as int - start as int] == full[j as int]);
                }
                lemma_field_len_char(tail, ' ', j as int - start as int);
            }
            let invert = input[start] == '-';
            let pstart = if invert {
                start + 1
            } else {
                start
            };
            let mut pattern: Vec<char> = Vec::new();
            let mut k: usize = pstart;
            while k < j
                invariant
                    full == input@,
                    n == full.len(),
                    pstart <= k <= j <= n,
                    case_sensitive ==> pattern@ == full.subrange(pstart as int, k as int),
                    !case_sensitive ==> pattern@ == spec_lower(
                        full.subrange(pstart as int, k as int),
                    ),
                decreases j - k,
            {
                if case_sensitive {
                    pattern.push(input[k]);
                } else {
                    pattern.push(lower_char(input[k]));
                }
                k += 1;
                proof {
                    if case_sensitive {
                        assert(pattern@ =~= full.subrange(pstart as int, k as int));
                    } else {
                        assert(pattern@ =~= spec_lower(full.subrange(pstart as int, k as int)));
                    }
                }
            }
            let matcher = RofiIntMatcher { pattern, case_sensitive, invert };
            proof {
                let tail = full.skip(start as int);
                let wl = j as int - start as int;
                let word = tail.subrange(0, wl);
                assert(spec_split(tail, ' ') == seq![word] + spec_split(tail.skip(wl), ' '));
                assert(tail.skip(wl) =~= full.skip(j as int));
                let rl = r@.len() as int;
                assert(words.skip(rl) == seq![word] + spec_split(full.skip(j as int), ' '));
                assert(words.skip(rl).len() >= 1);
                assert(rl < words.len());
                assert(words[rl] == words.skip(rl)[0]);
                assert(words[rl] == word);
                assert(words.skip(rl + 1) =~= words.skip(rl).drop_first());
                assert(spec_split(full.skip(j as int), ' ') =~= words.skip(rl).drop_first());
                assert(word[0] == full[start as int]);
                assert(word.len() == wl);
                if invert {
                    assert(word.drop_first() =~= full.subrange(pstart as int, j as int));
                } else {
                    assert(word =~= full.subrange(pstart as int, j as int));
                }
                assert(spec_matcher_for(word, case_sensitive, matcher));
            }
            r.push(matcher);
            i = j;
        }
    }
    proof {
        assert(full.skip(n as int) =~= Seq::<char>::empty());
        assert(words.skip(r@.len() as int).len() == 0);
    }
    r
}

/// The position of the first argument equal to `key`, if any.
pub open spec fn spec_arg_index(args: Seq<String>, key: Seq<char>) -> Option<int>
    decreases args.len(),
{
    if args.len() == 0 {
        None
    } else if args[0]@ == key {
        Some(0)
    } else {
        match spec_arg_index(args.drop_first(), key) {
            Some(i) => Some(i + 1),
            None => None,
        }
    }
}

/// A found index points at the key, inside the list.
pub proof fn lemma_arg_index_some(args: Seq<String>, key: Seq<char>)
    requires
        spec_arg_index(args, key) is Some,
    ensures
        0 <= spec_arg_index(args, key)->0 < args.len(),
        args[spec_arg_index(args, key)->0]@ == key,
    decreases args.len(),
{
    if args.len() > 0 && args[0]@ != key {
        lemma_arg_index_some(args.drop_first(), key);
    }
}

/// A scan that found `key` first at position `i` has computed the index.
pub proof fn lemma_arg_index_found(args: Seq<String>, key: Seq<char>, i: int)
    requires
        0 <= i < args.len(),
        args[i]@ == key,
        forall|k: int| 0 <= k < i ==> args[k]@ != key,
    ensures
        spec_arg_index(args, key) == Some(i),
    decreases i,
{
    if i > 0 {
        assert forall|k: int| 0 <= k < i - 1 implies (#[trigger] args.drop_first()[k])@ != key by {
            assert(args.drop_first()[k] == args[k + 1]);
        }
        assert(args.drop_first()[i - 1] == args[i]);
        lemma_arg_index_found(args.drop_first(), key, i - 1);
    }
}

/// A scan over every argument without finding `key` has shown there is no
/// index.
pub proof fn lemma_arg_index_absent(args: Seq<String>, key: Seq<char>)
    requires
        forall|k: int| 0 <= k < args.len() ==> args[k]@ != key,
    ensures
        spec_arg_index(args, key) is None,
    decreases args.len(),
{
    if args.len() > 0 {
        lemma_arg_index_absent(args.drop_first(), key);
    }
}

/// The position of the first argument equal to `key`, if the key was
/// passed at all.
pub fn find_arg(args: &Vec<String>, key: &String) -> (r: Option<usize>)
    ensures
        r is Some <==> spec_arg_index(args@, key@) is Some,
        r is Some ==> Some(r->0 as int) == spec_arg_index(args@, key@),
{
    let mut i: usize = 0;
    while i < args.len()
        invariant
            i <= args@.len(),
            forall|k: int| 0 <= k < i as int ==> (#[trigger] args@[k])@ != key@,
        decreases args@.len() - i,
    {
        if args[i].eq(key) {
            proof {
                lemma_arg_index_found(args@, key@, i as int);
            }
            return Some(i);
        }
        i += 1;
    }
    proof {
        lemma_arg_index_absent(args@, key@);
    }
    None
}

/// The value following `key` on the command line: the argument after the
/// key's first occurrence.  Nothing when the key is absent or is the last
/// argument.
pub fn find_arg_str(args: &Vec<String>, key: &String) -> (r: Option<String>)
    ensures
        spec_arg_index(args@, key@) is None ==> r is None,
        spec_arg_index(args@, key@) is Some && spec_arg_index(args@, key@)->0 + 1
            >= args@.len() ==> r is None,
        spec_arg_index(args@, key@) is Some && spec_arg_index(args@, key@)->0 + 1 < args@.len()
            ==> r is Some && r->0@ == args@[spec_arg_index(args@, key@)->0 + 1]@,
{
    match find_arg(args, key) {
        Some(i) => {
            proof {
                lemma_arg_index_some(args@, key@);
            }
            let n = args.len();
            if n - i > 1 {
                Some(args[i + 1].clone())
            } else {
                None
            }
        },
        None => None,
    }
}

/// Every value following an occurrence of `key`: for each position
/// holding the key, the argument right after it.
pub open spec fn spec_arg_values(args: Seq<String>, key: Seq<char>) -> Seq<Seq<char>>
    decreases args.len(),
{
    if args.len() == 0 {
        Seq::empty()
    } else if args[0]@ == key && args.len() >= 2 {
        seq![args[1]@] + spec_arg_values(args.drop_first(), key)
    } else if args.len() >= 1 && args[0]@ != key {
        spec_arg_values(args.drop_first(), key)
    } else {
        Seq::empty()
    }
}

/// Collects the value after every occurrence of `key` on the command
/// line.
pub fn find_arg_strv(args: &Vec<String>, key: &String) -> (r: Vec<String>)
    ensures
        r@.map_values(|v: String| v@) == spec_arg_values(args@, key@),
{
    let ghost full = args@;
    let ghost vals = spec_arg_values(full, key@);
    let n = args.len();
    let mut r: Vec<String> = Vec::new();
    let mut i: usize = 0;
    proof {
        assert(full.skip(0) =~= full);
        assert(r@.map_values(|v: String| v@) =~= Seq::<Seq<char>>::empty());
    }
    while i < n
        invariant
            full == args@,
            vals == spec_arg_values(full, key@),
            n == full.len(),
            i <= n,
            vals == r@.map_values(|v: String| v@) + spec_arg_values(full.skip(i as int), key@),
        decreases n - i,
    {
        let ghost rem = full.skip(i as int);
        proof {
            assert(rem[0] == full[i as int]);
            assert(rem.drop_first() =~= full.skip(i as int + 1));
        }
        if args[i].eq(key) && i + 1 < n {
            proof {
                assert(rem[1] == full[i as int + 1]);
            }
            let ghost r0 = r@;
            r.push(args[i + 1].clone());
            proof {
                assert(r@.map_values(|v: String| v@) =~= r0.map_values(|v: String| v@).push(
                    full[i as int + 1]@,
                ));
                let rest = spec_arg_values(full.skip(i as int + 1), key@);
                assert(r0.map_values(|v: String| v@) + (seq![rem[1]@] + rest) =~= r0.map_values(
                    |v: String| v@,
                ).push(rem[1]@) + rest);
            }
        } else {
            proof {
                if rem[0]@ == key@ {
                    assert(rem.len() < 2);
                    assert(spec_arg_values(rem, key@) =~= spec_arg_values(
                        full.skip(i as int + 1),
                        key@,
                    ));
                }
            }
        }
        i += 1;
    }
    proof {
        assert(full.skip(n as int) =~= Seq::<String>::empty());
        assert(vals =~= r@.map_values(|v: String| v@));
    }
    r
}

/// Whether a character is a decimal digit.
pub open spec fn spec_is_digit(c: char) -> bool {
    48 <= c as u32 <= 57
}

/// Whether `s` is one or more decimal digits.
pub open spec fn spec_is_digits(s: Seq<char>) -> bool {
    s.len() > 0 && forall|k: int| 0 <= k < s.len() ==> spec_is_digit(s[k])
}

/// The value of a digit string read in base ten.
pub open spec fn spec_digits_value(s: Seq<char>) -> int
    decreases s.len(),
{
    if s.len() == 0 {
        0
    } else {
        spec_digits_value(s.drop_last()) * 10 + (s.last() as u32 - 48)
    }
}

/// A longer digit prefix never has a smaller value.
pub proof fn lemma_digits_value_monotone(s: Seq<char>, k: int, l: int)
    requires
        0 <= k <= l <= s.len(),
        forall|j: int| 0 <= j < l ==> spec_is_digit(s[j]),
    ensures
        spec_digits_value(s.take(k)) <= spec_digits_value(s.take(l)),
        0 <= spec_digits_value(s.take(k)),
    decreases l,
{
    if l == 0 {
        assert(s.take(0) =~= Seq::<char>::empty());
    } else if k == l {
        lemma_digits_value_monotone(s, k - 1 + 1 - 1, l - 1);
        assert(s.take(l).drop_last() =~= s.take(l - 1));
        assert(s.take(l).last() == s[l - 1]);
    } else {
        lemma_digits_value_monotone(s, k, l - 1);
        assert(s.take(l).drop_last() =~= s.take(l - 1));
        assert(s.take(l).last() == s[l - 1]);
    }
}

/// Reads an unsigned decimal number: every character must be a digit and
/// the value must fit.
pub fn parse_u32_chars(s: &Vec<char>) -> (r: Option<u32>)
    ensures
        r is Some <==> spec_is_digits(s@) && spec_digits_value(s@) <= u32::MAX,
        r is Some ==> r->0 as int == spec_digits_value(s@),
{
    let n = s.len();
    if n == 0 {
        return None;
    }
    let mut acc: u64 = 0;
    let mut over = false;
    let mut i: usize = 0;
    while i < n
        invariant
            n == s@.len(),
            i <= n,
            forall|k: int| 0 <= k < i as int ==> spec_is_digit(s@[k]),
            !over ==> acc as int == spec_digits_value(s@.take(i as int)) && acc <= u32::MAX,
            over ==> spec_digits_value(s@.take(i as int)) > u32::MAX,
        decreases n - i,
    {
        let c = s[i];
        let cu = c as u32;
        if cu < 48 || cu > 57 {
            proof {
                assert(!spec_is_digit(s@[i as int]));
            }
            return None;
        }
        if !over {
            let d = (cu - 48) as u64;
            acc = acc * 10 + d;
            proof {
                assert(s@.take(i as int + 1).drop_last() =~= s@.take(i as int));
                assert(s@.take(i as int + 1).last() == s@[i as int]);
            }
            if acc > 0xFFFF_FFFF {
                over = true;
            }
        } else {
            proof {
                lemma_digits_value_monotone(s@, i as int, i as int + 1);
            }
        }
        i += 1;
    }
    proof {
        assert(s@.take(n as int) =~= s@);
    }
    if over {
        None
    } else {
        Some(acc as u32)
    }
}

/// Reads a signed decimal number: an optional leading minus sign, then
/// digits; the value must fit a 32-bit signed integer.
pub fn parse_i32_chars(s: &Vec<char>) -> (r: Option<i32>)
    ensures
        s@.len() > 0 && s@[0] == '-' ==> ((r is Some <==> spec_is_digits(s@.drop_first())
            && spec_digits_value(s@.drop_first()) <= 0x8000_0000) && (r is Some
            ==> r->0 as int == -spec_digits_value(s@.drop_first()))),
        !(s@.len() > 0 && s@[0] == '-') ==> ((r is Some <==> spec_is_digits(s@)
            && spec_digits_value(s@) <= i32::MAX) && (r is Some ==> r->0 as int
            == spec_digits_value(s@))),
{
    let n = s.len();
    if n > 0 && s[0] == '-' {
        let mut digits: Vec<char> = Vec::new();
        let mut i: usize = 1;
        while i < n
            invariant
                n == s@.len(),
                1 <= i <= n,
                digits@ == s@.subrange(1, i as int),
            decreases n - i,
        {
            digits.push(s[i]);
            i += 1;
            proof {
                assert(digits@ =~= s@.subrange(1, i as int));
            }
        }
        proof {
            assert(digits@ =~= s@.drop_first());
        }
        match parse_u32_chars(&digits) {
            Some(v) => {
                if v <= 0x8000_0000 {
                    Some((-(v as i64)) as i32)
                } else {
                    None
                }
            },
            None => None,
        }
    } else {
        match parse_u32_chars(s) {
            Some(v) => {
                if v <= 0x7FFF_FFFF {
                    Some(v as i32)
                } else {
                    None
                }
            },
            None => None,
        }
    }
}

/// The character an escape sequence `\x` denotes.
pub open spec fn spec_escape_char(c: char) -> Option<char> {
    if c == 'n' {
        Some('\n')
    } else if c == 'r' {
        Some('\r')
    } else if c == 't' {
        Some('\t')
    } else if c == 'a' {
        Some('\u{0007}')
    } else if c == 'b' {
        Some('\u{0008}')
    } else if c == 'f' {
        Some('\u{000C}')
    } else if c == 'v' {
        Some('\u{000B}')
    } else if c == '0' {
        Some('\u{0000}')
    } else if c == '\\' {
        Some('\\')
    } else {
        None
    }
}

/// Reads a single character: either the character itself or a
/// backslash escape.
pub open spec fn spec_parse_char(s: Seq<char>) -> Option<char> {
    if s.len() == 1 {
        Some(s[0])
    } else if s.len() == 2 && s[0] == '\\' {
        spec_escape_char(s[1])
    } else {
        None
    }
}

/// Reads a single character, with escape support; see
/// [`spec_parse_char`].
pub fn parse_char(s: &Vec<char>) -> (r: Option<char>)
    ensures
        r == spec_parse_char(s@),
{
    if s.len() == 1 {
        Some(s[0])
    } else if s.len() == 2 && s[0] == '\\' {
        let c = s[1];
        if c == 'n' {
            Some('\n')
        } else if c == 'r' {
            Some('\r')
        } else if c == 't' {
            Some('\t')
        } else if c == 'a' {
            Some('\u{0007}')
        } else if c == 'b' {
            Some('\u{0008}')
        } else if c == 'f' {
            Some('\u{000C}')
        } else if c == 'v' {
            Some('\u{000B}')
        } else if c == '0' {
            Some('\u{0000}')
        } else if c == '\\' {
            Some('\\')
        } else {
            None
        }
    } else {
        None
    }
}

/// The value that follows the key's first occurrence, as the lookups
/// read it; nothing when the key is absent or is the last argument.
pub open spec fn spec_arg_value(args: Seq<String>, key: Seq<char>) -> Option<Seq<char>> {
    match spec_arg_index(args, key) {
        Some(i) => if i + 1 < args.len() {
            Some(args[i + 1]@)
        } else {
            None
        },
        None => None,
    }
}

/// The value following `key`, read as an unsigned number: present
/// exactly when the key has a value that is all digits and fits.
pub fn find_arg_uint(args: &Vec<String>, key: &String) -> (r: Option<u32>)
    ensures
        spec_arg_value(args@, key@) is None ==> r is None,
        spec_arg_value(args@, key@) matches Some(v) ==> ((r is Some <==> spec_is_digits(v)
            && spec_digits_value(v) <= u32::MAX) && (r is Some ==> r->0 as int
            == spec_digits_value(v))),
{
    match find_arg_str(args, key) {
        Some(v) => {
            let cs = str_to_chars(v.as_str());
            parse_u32_chars(&cs)
        },
        None => None,
    }
}

/// The value following `key`, read as a signed number: present exactly
/// when the key has a value that parses and fits.
pub fn find_arg_int(args: &Vec<String>, key: &String) -> (r: Option<i32>)
    ensures
        spec_arg_value(args@, key@) is None ==> r is None,
        spec_arg_value(args@, key@) matches Some(v) ==> ((r is Some <==> spec_parse_i32(v)
            is Some) && (r is Some ==> r->0 as int == spec_parse_i32(v)->0)),
{
    match find_arg_str(args, key) {
        Some(v) => {
            let cs = str_to_chars(v.as_str());
            parse_i32_chars(&cs)
        },
        None => None,
    }
}

/// The value following `key`, read as a single character with escape
/// support: present exactly when the key has a value naming one
/// character.
pub fn find_arg_char(args: &Vec<String>, key: &String) -> (r: Option<char>)
    ensures
        spec_arg_value(args@, key@) is None ==> r is None,
        spec_arg_value(args@, key@) matches Some(v) ==> r == spec_parse_char(v),
{
    match find_arg_str(args, key) {
        Some(v) => {
            let cs = str_to_chars(v.as_str());
            parse_char(&cs)
        },
        None => None,
    }
}

/// The character of one decimal digit.
pub open spec fn spec_digit_char(d: int) -> char {
    if d == 0 {
        '0'
    } else if d == 1 {
        '1'
    } else if d == 2 {
        '2'
    } else if d == 3 {
        '3'
    } else if d == 4 {
        '4'
    } else if d == 5 {
        '5'
    } else if d == 6 {
        '6'
    } else if d == 7 {
        '7'
    } else if d == 8 {
        '8'
    } else {
        '9'
    }
}

/// The decimal representation of a non-negative number.
pub open spec fn spec_decimal(n: int) -> Seq<char>
    decreases n,
{
    if n < 10 {
        seq![spec_digit_char(n)]
    } else {
        spec_decimal(n / 10) + seq![spec_digit_char(n % 10)]
    }
}

/// A string quoted for the shell: wrapped in single quotes, with every
/// inner single quote closed, escaped and reopened.
pub open spec fn spec_quote_inner(s: Seq<char>) -> Seq<char>
    decreases s.len(),
{
    if s.len() == 0 {
        Seq::empty()
    } else {
        spec_quote_inner(s.drop_last()) + (if s.last() == '\'' {
            seq!['\'', '\\', '\'', '\'']
        } else {
            seq![s.last()]
        })
    }
}

/// A string quoted for the shell.
pub open spec fn spec_shell_quote(s: Seq<char>) -> Seq<char> {
    seq!['\''] + spec_quote_inner(s) + seq!['\'']
}

/// The result line built from a format string: `%i` the zero-based
/// index, `%d` the one-based index, `%s` the entry, `%q` the entry
/// quoted, `%f` the filter, `%F` the filter quoted.  An unknown
/// specifier emits nothing, and a trailing `%` is dropped.
pub open spec fn spec_format_line(
    fmt: Seq<char>,
    entry: Seq<char>,
    index: int,
    filter: Seq<char>,
) -> Seq<char>
    decreases fmt.len(),
{
    if fmt.len() == 0 {
        Seq::empty()
    } else if fmt[0] == '%' {
        if fmt.len() == 1 {
            Seq::empty()
        } else {
            let chunk = if fmt[1] == 'i' {
                spec_decimal(index)
            } else if fmt[1] == 'd' {
                spec_decimal(index + 1)
            } else if fmt[1] == 's' {
                entry
            } else if fmt[1] == 'q' {
                spec_shell_quote(entry)
            } else if fmt[1] == 'f' {
                filter
            } else if fmt[1] == 'F' {
                spec_shell_quote(filter)
            } else {
                Seq::empty()
            };
            chunk + spec_format_line(fmt.skip(2), entry, index, filter)
        }
    } else {
        seq![fmt[0]] + spec_format_line(fmt.skip(1), entry, index, filter)
    }
}

/// One decimal digit as a character.
fn digit_char(d: u64) -> (r: char)
    requires
        d < 10,
    ensures
        r == spec_digit_char(d as int),
{
    if d == 0 {
        '0'
    } else if d == 1 {
        '1'
    } else if d == 2 {
        '2'
    } else if d == 3 {
        '3'
    } else if d == 4 {
        '4'
    } else if d == 5 {
        '5'
    } else if d == 6 {
        '6'
    } else if d == 7 {
        '7'
    } else if d == 8 {
        '8'
    } else {
        '9'
    }
}

/// Appends the decimal representation of `n`.
fn push_decimal(n: u64, out: &mut Vec<char>)
    ensures
        final(out)@ == old(out)@ + spec_decimal(n as int),
    decreases n,
{
    if n < 10 {
        out.push(digit_char(n));
        proof {
            assert(out@ =~= old(out)@ + spec_decimal(n as int));
        }
    } else {
        push_decimal(n / 10, out);
        out.push(digit_char(n % 10));
        proof {
            assert(out@ =~= old(out)@ + spec_decimal(n as int));
        }
    }
}

/// Appends every character of `s`.
fn push_all(out: &mut Vec<char>, s: &Vec<char>)
    ensures
        final(out)@ == old(out)@ + s@,
{
    let mut i: usize = 0;
    while i < s.len()
        invariant
            i <= s@.len(),
            out@ == old(out)@ + s@.subrange(0, i as int),
        decreases s@.len() - i,
    {
        out.push(s[i]);
        i += 1;
        proof {
            assert(out@ =~= old(out)@ + s@.subrange(0, i as int));
        }
    }
    proof {
        assert(old(out)@ + s@.subrange(0, s@.len() as int) =~= old(out)@ + s@);
    }
}

/// Appends `s` quoted for the shell.
fn push_quoted(out: &mut Vec<char>, s: &Vec<char>)
    ensures
        final(out)@ == old(out)@ + spec_shell_quote(s@),
{
    out.push('\'');
    let mut i: usize = 0;
    while i < s.len()
        invariant
            i <= s@.len(),
            out@ == old(out)@ + seq!['\''] + spec_quote_inner(s@.subrange(0, i as int)),
        decreases s@.len() - i,
    {
        let c = s[i];
        if c == '\'' {
            out.push('\'');
            out.push('\\');
            out.push('\'');
            out.push('\'');
        } else {
            out.push(c);
        }
        i += 1;
        proof {
            assert(s@.subrange(0, i as int).drop_last() =~= s@.subrange(0, i as int - 1));
            assert(s@.subrange(0, i as int).last() == s@[i as int - 1]);
            assert(out@ =~= old(out)@ + seq!['\''] + spec_quote_inner(s@.subrange(0, i as int)));
        }
    }
    out.push('\'');
    proof {
        assert(s@.subrange(0, s@.len() as int) =~= s@);
        assert(out@ =~= old(out)@ + spec_shell_quote(s@));
    }
}

/// Builds the line the host prints to standard output for a selection;
/// see [`spec_format_line`] for the format language.
#[verifier::rlimit(100)]
#[verifier::spinoff_prover]
pub fn format_result_line(
    format: &Vec<char>,
    entry: &Vec<char>,
    selected_line: u32,
    filter: &Vec<char>,
) -> (r: Vec<char>)
    ensures
        r@ == spec_format_line(format@, entry@, selected_line as int, filter@),
{
    let ghost fmt = format@;
    let ghost goal = spec_format_line(format@, entry@, selected_line as int, filter@);
    let n = format.len();
    let mut out: Vec<char> = Vec::new();
    let mut i: usize = 0;
    proof {
        assert(fmt.skip(0) =~= fmt);
    }
    while i < n
        invariant
            fmt == format@,
            goal == spec_format_line(format@, entry@, selected_line as int, filter@),
            n == fmt.len(),
            i <= n,
            goal == out@ + spec_format_line(
                fmt.skip(i as int),
                entry@,
                selected_line as int,
                filter@,
            ),
        decreases n - i,
    {
        let ghost rem = fmt.skip(i as int);
        proof {
            assert(rem[0] == fmt[i as int]);
        }
        let c = format[i];
        if c == '%' {
            if n - i > 1 {
                proof {
                    assert(rem[1] == fmt[i as int + 1]);
                    assert(rem.skip(2) =~= fmt.skip(i as int + 2));
                }
                let ghost out0 = out@;
                let d = format[i + 1];
                let ghost chunk = (if d == 'i' {
                    spec_decimal(selected_line as int)
                } else if d == 'd' {
                    spec_decimal(selected_line as int + 1)
                } else if d == 's' {
                    entry@
                } else if d == 'q' {
                    spec_shell_quote(entry@)
                } else if d == 'f' {
                    filter@
                } else if d == 'F' {
                    spec_shell_quote(filter@)
                } else {
                    Seq::<char>::empty()
                });
                if d == 'i' {
                    push_decimal(selected_line as u64, &mut out);
                } else if d == 'd' {
                    push_decimal(selected_line as u64 + 1, &mut out);
                } else if d == 's' {
                    push_all(&mut out, entry);
                } else if d == 'q' {
                    push_quoted(&mut out, entry);
                } else if d == 'f' {
                    push_all(&mut out, filter);
                } else if d == 'F' {
                    push_quoted(&mut out, filter);
                }
                proof {
                    let rest = spec_format_line(
                        fmt.skip(i as int + 2),
                        entry@,
                        selected_line as int,
                        filter@,
                    );
                    assert(out@ == out0 + chunk);
                    assert(spec_format_line(rem, entry@, selected_line as int, filter@) == chunk
                        + rest);
                    assert(out0 + (chunk + rest) =~= (out0 + chunk) + rest);
                }
                i += 2;
            } else {
                proof {
                    assert(rem.len() == 1);
                }
                i += 1;
            }
        } else {
            out.push(c);
            proof {
                assert(rem.skip(1) =~= fmt.skip(i as int + 1));
            }
            i += 1;
        }
    }
    proof {
        assert(fmt.skip(n as int) =~= Seq::<char>::empty());
    }
    out
}

/// One substitution pair for command templates.
#[derive(Clone, Debug)]
pub struct ReplacePair {
    /// The name that appears inside `{` `}`.
    pub key: Vec<char>,
    /// What the braced name is replaced with.
    pub value: Vec<char>,
}

/// The value of the first pair whose key is `key`, if any.
pub open spec fn spec_pair_value(pairs: Seq<ReplacePair>, key: Seq<char>) -> Option<Seq<char>>
    decreases pairs.len(),
{
    if pairs.len() == 0 {
        None
    } else if pairs[0].key@ == key {
        Some(pairs[0].value@)
    } else {
        spec_pair_value(pairs.drop_first(), key)
    }
}

/// The position of the first occurrence of `c` in `s`, or the length of
/// `s` when `c` does not occur.
pub open spec fn spec_find_char(s: Seq<char>, c: char) -> int
    decreases s.len(),
{
    if s.len() == 0 {
        0
    } else if s[0] == c {
        0
    } else {
        1 + spec_find_char(s.drop_first(), c)
    }
}

/// A scan that saw `m` other characters and then `c` (or the end) has
/// found the first occurrence.
pub proof fn lemma_find_char_at(s: Seq<char>, c: char, m: int)
    requires
        0 <= m <= s.len(),
        forall|k: int| 0 <= k < m ==> s[k] != c,
        m == s.len() || s[m] == c,
    ensures
        spec_find_char(s, c) == m,
    decreases m,
{
    if m > 0 {
        assert forall|k: int| 0 <= k < m - 1 implies (#[trigger] s.drop_first()[k]) != c by {
            assert(s.drop_first()[k] == s[k + 1]);
        }
        if m < s.len() {
            assert(s.drop_first()[m - 1] == s[m]);
        }
        lemma_find_char_at(s.drop_first(), c, m - 1);
    }
}

/// Whether every braced name of a bracket group has a value.
pub open spec fn spec_group_ok(g: Seq<char>, pairs: Seq<ReplacePair>) -> bool
    decreases g.len(),
{
    if g.len() == 0 {
        true
    } else if g[0] == '{' {
        let ci = spec_imax(1, spec_find_char(g, '}'));
        if 0 <= ci < g.len() {
            spec_pair_value(pairs, g.subrange(1, ci)) is Some && spec_group_ok(
                g.skip(ci + 1),
                pairs,
            )
        } else {
            true
        }
    } else {
        spec_group_ok(g.skip(1), pairs)
    }
}

/// The template with its substitutions applied.
///
/// A braced name `{key}` becomes its value, or nothing when no pair
/// defines it.  A bracket group `[` ... `]` is kept — with its brackets
/// stripped and its substitutions applied — only when every braced name
/// inside it has a value; otherwise the whole group is dropped.  An
/// unclosed brace or bracket leaves the rest of the template as it is.
pub open spec fn spec_replace(s: Seq<char>, pairs: Seq<ReplacePair>) -> Seq<char>
    decreases s.len(),
{
    if s.len() == 0 {
        Seq::empty()
    } else if s[0] == '{' {
        let ci = spec_imax(1, spec_find_char(s, '}'));
        if 0 <= ci < s.len() {
            (match spec_pair_value(pairs, s.subrange(1, ci)) {
                Some(v) => v,
                None => Seq::empty(),
            }) + spec_replace(s.skip(ci + 1), pairs)
        } else {
            s
        }
    } else if s[0] == '[' {
        let bi = spec_imax(1, spec_find_char(s, ']'));
        if 0 <= bi < s.len() {
            (if spec_group_ok(s.subrange(1, bi), pairs) {
                spec_replace(s.subrange(1, bi), pairs)
            } else {
                Seq::empty()
            }) + spec_replace(s.skip(bi + 1), pairs)
        } else {
            s
        }
    } else {
        seq![s[0]] + spec_replace(s.skip(1), pairs)
    }
}

/// The offset of the first occurrence of `c` at or after `from`, as
/// [`spec_find_char`] counts it on the remaining template.
fn find_char_from(s: &Vec<char>, from: usize, c: char) -> (r: usize)
    requires
        from <= s@.len(),
    ensures
        r as int == spec_find_char(s@.skip(from as int), c),
        r <= s@.len() - from,
        from < s@.len() && s@[from as int] != c ==> r >= 1,
    decreases s@.len() - from,
{
    let n = s.len();
    let mut j: usize = from;
    while j < n && s[j] != c
        invariant
            from <= j <= n,
            n == s@.len(),
            forall|k: int| from as int <= k < j as int ==> s@[k] != c,
        decreases n - j,
    {
        j += 1;
    }
    proof {
        let tail = s@.skip(from as int);
        assert forall|k: int| 0 <= k < j as int - from as int implies tail[k] != c by {
            assert(tail[k] == s@[from as int + k]);
        }
        if (j as int) < n as int {
            assert(tail[j as int - from as int] == s@[j as int]);
        }
        lemma_find_char_at(tail, c, j as int - from as int);
    }
    j - from
}

/// Appends `s[from..to]`.
fn push_range(out: &mut Vec<char>, s: &Vec<char>, from: usize, to: usize)
    requires
        from <= to <= s@.len(),
    ensures
        final(out)@ == old(out)@ + s@.subrange(from as int, to as int),
{
    let mut i: usize = from;
    while i < to
        invariant
            from <= i <= to <= s@.len(),
            out@ == old(out)@ + s@.subrange(from as int, i as int),
        decreases to - i,
    {
        out.push(s[i]);
        i += 1;
        proof {
            assert(out@ =~= old(out)@ + s@.subrange(from as int, i as int));
        }
    }
}

/// Copies `s[from..to]` into a fresh vector.
fn copy_range(s: &Vec<char>, from: usize, to: usize) -> (r: Vec<char>)
    requires
        from <= to <= s@.len(),
    ensures
        r@ == s@.subrange(from as int, to as int),
{
    let mut r: Vec<char> = Vec::new();
    push_range(&mut r, s, from, to);
    proof {
        assert(r@ =~= s@.subrange(from as int, to as int));
    }
    r
}

/// Whether two character vectors hold the same characters.
pub fn chars_equal(a: &Vec<char>, b: &Vec<char>) -> (r: bool)
    ensures
        r == (a@ == b@),
{
    if a.len() != b.len() {
        return false;
    }
    let n = a.len();
    let mut j: usize = 0;
    while j < n
        invariant
            n == a@.len() == b@.len(),
            j <= n,
            a@.subrange(0, j as int) == b@.subrange(0, j as int),
        decreases n - j,
    {
        if a[j] != b[j] {
            proof {
                assert(a@[j as int] != b@[j as int]);
            }
            return false;
        }
        j += 1;
        proof {
            assert(a@.subrange(0, j as int) =~= b@.subrange(0, j as int));
        }
    }
    proof {
        assert(a@.subrange(0, n as int) =~= a@);
        assert(b@.subrange(0, n as int) =~= b@);
    }
    true
}

/// The value of the first pair whose key is `key`, if any.
fn pair_value(pairs: &Vec<ReplacePair>, key: &Vec<char>) -> (r: Option<Vec<char>>)
    ensures
        r is Some <==> spec_pair_value(pairs@, key@) is Some,
        r is Some ==> r->0@ == spec_pair_value(pairs@, key@)->0,
{
    let mut i: usize = 0;
    while i < pairs.len()
        invariant
            i <= pairs@.len(),
            forall|k: int| 0 <= k < i as int ==> (#[trigger] pairs@[k].key)@ != key@,
        decreases pairs@.len() - i,
    {
        if chars_equal(&pairs[i].key, key) {
            proof {
                lemma_pair_value_found(pairs@, key@, i as int);
            }
            return Some(pairs[i].value.clone());
        }
        i += 1;
    }
    proof {
        lemma_pair_value_absent(pairs@, key@);
    }
    None
}

/// A scan that found `key` first at position `i` has computed the
/// substitution value.
pub proof fn lemma_pair_value_found(pairs: Seq<ReplacePair>, key: Seq<char>, i: int)
    requires
        0 <= i < pairs.len(),
        pairs[i].key@ == key,
        forall|k: int| 0 <= k < i ==> (#[trigger] pairs[k].key)@ != key,
    ensures
        spec_pair_value(pairs, key) == Some(pairs[i].value@),
    decreases i,
{
    if i > 0 {
        assert forall|k: int| 0 <= k < i - 1 implies (#[trigger] pairs.drop_first()[k].key)@
            != key by {
            assert(pairs.drop_first()[k] == pairs[k + 1]);
        }
        assert(pairs.drop_first()[i - 1] == pairs[i]);
        lemma_pair_value_found(pairs.drop_first(), key, i - 1);
    }
}

/// A scan over every pair without finding `key` has shown there is no
/// substitution value.
pub proof fn lemma_pair_value_absent(pairs: Seq<ReplacePair>, key: Seq<char>)
    requires
        forall|k: int| 0 <= k < pairs.len() ==> (#[trigger] pairs[k].key)@ != key,
    ensures
        spec_pair_value(pairs, key) is None,
    decreases pairs.len(),
{
    if pairs.len() > 0 {
        lemma_pair_value_absent(pairs.drop_first(), key);
    }
}

/// Whether every braced name after `from` has a value.
fn group_ok_from(g: &Vec<char>, from: usize, pairs: &Vec<ReplacePair>) -> (r: bool)
    requires
        from <= g@.len(),
    ensures
        r == spec_group_ok(g@.skip(from as int), pairs@),
    decreases g@.len() - from,
{
    let n = g.len();
    if from >= n {
        proof {
            assert(g@.skip(from as int) =~= Seq::<char>::empty());
        }
        return true;
    }
    let ghost rem = g@.skip(from as int);
    proof {
        assert(rem[0] == g@[from as int]);
    }
    if g[from] == '{' {
        let rel = find_char_from(g, from, '}');
        if rel >= n - from {
            true
        } else {
            let key = copy_range(g, from + 1, from + rel);
            proof {
                assert(rem.subrange(1, rel as int) =~= g@.subrange(
                    from as int + 1,
                    from as int + rel as int,
                ));
                assert(rem.skip(rel as int + 1) =~= g@.skip(from as int + rel as int + 1));
            }
            let found = pair_value(pairs, &key);
            if found.is_some() {
                group_ok_from(g, from + rel + 1, pairs)
            } else {
                false
            }
        }
    } else {
        proof {
            assert(rem.skip(1) =~= g@.skip(from as int + 1));
        }
        group_ok_from(g, from + 1, pairs)
    }
}

/// Appends the substituted template from `from` on.
fn replace_into(s: &Vec<char>, from: usize, pairs: &Vec<ReplacePair>, out: &mut Vec<char>)
    requires
        from <= s@.len(),
    ensures
        final(out)@ == old(out)@ + spec_replace(s@.skip(from as int), pairs@),
    decreases s@.len() - from,
{
    let n = s.len();
    if from >= n {
        proof {
            assert(s@.skip(from as int) =~= Seq::<char>::empty());
            assert(out@ =~= old(out)@ + spec_replace(s@.skip(from as int), pairs@));
        }
        return ;
    }
    let ghost rem = s@.skip(from as int);
    let ghost out0 = out@;
    proof {
        assert(rem[0] == s@[from as int]);
    }
    let c = s[from];
    if c == '{' {
        let rel = find_char_from(s, from, '}');
        if rel >= n - from {
            push_range(out, s, from, n);
            proof {
                assert(s@.subrange(from as int, n as int) =~= rem);
                assert(out@ =~= out0 + spec_replace(rem, pairs@));
            }
        } else {
            let key = copy_range(s, from + 1, from + rel);
            proof {
                assert(rem.subrange(1, rel as int) =~= s@.subrange(
                    from as int + 1,
                    from as int + rel as int,
                ));
                assert(rem.skip(rel as int + 1) =~= s@.skip(from as int + rel as int + 1));
            }
            match pair_value(pairs, &key) {
                Some(v) => {
                    push_all(out, &v);
                },
                None => {},
            }
            let ghost chunk = (match spec_pair_value(pairs@, key@) {
                Some(v) => v,
                None => Seq::<char>::empty(),
            });
            proof {
                assert(out@ == out0 + chunk);
            }
            replace_into(s, from + rel + 1, pairs, out);
            proof {
                let rest = spec_replace(s@.skip(from as int + rel as int + 1), pairs@);
                assert(out@ =~= out0 + (chunk + rest));
            }
        }
    } else if c == '[' {
        let rel = find_char_from(s, from, ']');
        if rel >= n - from {
            push_range(out, s, from, n);
            proof {
                assert(s@.subrange(from as int, n as int) =~= rem);
                assert(out@ =~= out0 + spec_replace(rem, pairs@));
            }
        } else {
            let group = copy_range(s, from + 1, from + rel);
            proof {
                assert(rem.subrange(1, rel as int) =~= s@.subrange(
                    from as int + 1,
                    from as int + rel as int,
                ));
                assert(group@ == rem.subrange(1, rel as int));
                assert(group@.skip(0) =~= group@);
                assert(rem.skip(rel as int + 1) =~= s@.skip(from as int + rel as int + 1));
            }
            let ghost chunk = (if spec_group_ok(rem.subrange(1, rel as int), pairs@) {
                spec_replace(rem.subrange(1, rel as int), pairs@)
            } else {
                Seq::<char>::empty()
            });
            if group_ok_from(&group, 0, pairs) {
                replace_into(&group, 0, pairs, out);
            }
            proof {
                assert(out@ == out0 + chunk);
            }
            replace_into(s, from + rel + 1, pairs, out);
            proof {
                let rest = spec_replace(s@.skip(from as int + rel as int + 1), pairs@);
                assert(out@ =~= out0 + (chunk + rest));
            }
        }
    } else {
        out.push(c);
        proof {
            assert(rem.skip(1) =~= s@.skip(from as int + 1));
        }
        replace_into(s, from + 1, pairs, out);
        proof {
            let rest = spec_replace(s@.skip(from as int + 1), pairs@);
            assert(out@ =~= out0 + (seq![rem[0]] + rest));
        }
    }
}

/// Applies `{key}` substitutions and `[` `]` optional groups to a
/// command template; see [`spec_replace`].
pub fn string_replace_if_exists(template: &Vec<char>, pairs: &Vec<ReplacePair>) -> (r: Vec<char>)
    ensures
        r@ == spec_replace(template@, pairs@),
{
    let mut out: Vec<char> = Vec::new();
    replace_into(template, 0, pairs, &mut out);
    proof {
        assert(template@.skip(0) =~= template@);
    }
    out
}

/// Latin-1 text transcoded character-wise: every byte becomes the
/// character with the same code point.
pub open spec fn spec_latin_to_chars(s: Seq<u8>) -> Seq<char> {
    s.map_values(|b: u8| b as char)
}

/// Transcodes Latin-1 bytes: every byte becomes the character with the
/// same code point.
pub fn latin_to_utf8(input: &Vec<u8>) -> (r: Vec<char>)
    ensures
        r@ == spec_latin_to_chars(input@),
{
    let mut r: Vec<char> = Vec::new();
    let mut i: usize = 0;
    while i < input.len()
        invariant
            i <= input@.len(),
            r@ == spec_latin_to_chars(input@.subrange(0, i as int)),
        decreases input@.len() - i,
    {
        r.push(input[i] as char);
        i += 1;
        proof {
            assert(r@ =~= spec_latin_to_chars(input@.subrange(0, i as int)));
        }
    }
    proof {
        assert(r@ =~= spec_latin_to_chars(input@));
    }
    r
}

/// A path with a leading `~` expanded to the home directory the host
/// supplied: `~` alone becomes the home directory, `~/rest` becomes the
/// home directory followed by `/rest`, and anything else is unchanged.
/// Expanding `~user` needs the host's user database and stays with the
/// host.
pub open spec fn spec_expand_path(input: Seq<char>, home: Seq<char>) -> Seq<char> {
    if input.len() == 1 && input[0] == '~' {
        home
    } else if input.len() >= 2 && input[0] == '~' && input[1] == '/' {
        home + input.skip(1)
    } else {
        input
    }
}

/// Expands a leading `~` to the home directory; see
/// [`spec_expand_path`].
pub fn expand_path(input: &Vec<char>, home: &Vec<char>) -> (r: Vec<char>)
    ensures
        r@ == spec_expand_path(input@, home@),
{
    let n = input.len();
    if n == 1 && input[0] == '~' {
        let mut r: Vec<char> = Vec::new();
        push_all(&mut r, home);
        proof {
            assert(r@ =~= home@);
        }
        r
    } else if n >= 2 && input[0] == '~' && input[1] == '/' {
        let mut r: Vec<char> = Vec::new();
        push_all(&mut r, home);
        push_range(&mut r, input, 1, n);
        proof {
            assert(input@.subrange(1, n as int) =~= input@.skip(1));
        }
        r
    } else {
        let mut r: Vec<char> = Vec::new();
        push_all(&mut r, input);
        proof {
            assert(r@ =~= input@);
        }
        r
    }
}

/// One widget of the loaded theme configuration: its name, its parent
/// (an earlier entry), and its properties.
pub struct ConfigEntry {
    /// Name of the widget.
    pub name: String,
    /// Index of the parent widget, which always comes earlier in the
    /// store.
    pub parent: Option<usize>,
    /// The properties set on this widget.
    pub properties: Vec<Property>,
}

/// The loaded theme configuration: every widget, parents before
/// children.
pub struct ThemeConfig {
    /// The widgets, in an order that puts every parent before its
    /// children.
    pub widgets: Vec<ConfigEntry>,
}

/// The position of the first property with this type and name, if any.
pub open spec fn spec_prop_index(props: Seq<Property>, ty: PropertyType, name: Seq<char>) -> Option<
    int,
>
    decreases props.len(),
{
    if props.len() == 0 {
        None
    } else if props[0].name@ == name && spec_property_value_type(props[0].value) == ty {
        Some(0)
    } else {
        match spec_prop_index(props.drop_first(), ty, name) {
            Some(i) => Some(i + 1),
            None => None,
        }
    }
}

/// A found property index is in bounds and names a property of the
/// wanted type and name.
pub proof fn lemma_prop_index_some(props: Seq<Property>, ty: PropertyType, name: Seq<char>)
    requires
        spec_prop_index(props, ty, name) is Some,
    ensures
        0 <= spec_prop_index(props, ty, name)->0 < props.len(),
        props[spec_prop_index(props, ty, name)->0].name@ == name,
        spec_property_value_type(props[spec_prop_index(props, ty, name)->0].value) == ty,
    decreases props.len(),
{
    if props.len() > 0 && !(props[0].name@ == name && spec_property_value_type(props[0].value)
        == ty) {
        lemma_prop_index_some(props.drop_first(), ty, name);
    }
}

/// A scan that found the first matching property at `i` has computed the
/// index.
pub proof fn lemma_prop_index_found(
    props: Seq<Property>,
    ty: PropertyType,
    name: Seq<char>,
    i: int,
)
    requires
        0 <= i < props.len(),
        props[i].name@ == name,
        spec_property_value_type(props[i].value) == ty,
        forall|k: int|
            0 <= k < i ==> !((#[trigger] props[k]).name@ == name && spec_property_value_type(
                props[k].value,
            ) == ty),
    ensures
        spec_prop_index(props, ty, name) == Some(i),
    decreases i,
{
    if i > 0 {
        assert forall|k: int|
            0 <= k < i - 1 implies !((#[trigger] props.drop_first()[k]).name@ == name
            && spec_property_value_type(props.drop_first()[k].value) == ty) by {
            assert(props.drop_first()[k] == props[k + 1]);
        }
        assert(props.drop_first()[i - 1] == props[i]);
        lemma_prop_index_found(props.drop_first(), ty, name, i - 1);
    }
}

/// A scan over every property without a match has shown there is no
/// index.
pub proof fn lemma_prop_index_absent(props: Seq<Property>, ty: PropertyType, name: Seq<char>)
    requires
        forall|k: int|
            0 <= k < props.len() ==> !((#[trigger] props[k]).name@ == name
                && spec_property_value_type(props[k].value) == ty),
    ensures
        spec_prop_index(props, ty, name) is None,
    decreases props.len(),
{
    if props.len() > 0 {
        lemma_prop_index_absent(props.drop_first(), ty, name);
    }
}

/// Where a property lookup lands: the widget it was found on and the
/// property's position there.  An exact search looks only at the named
/// widget; otherwise the search walks up the parents until a match is
/// found.
pub open spec fn spec_theme_find(
    widgets: Seq<ConfigEntry>,
    w: int,
    ty: PropertyType,
    name: Seq<char>,
    exact: bool,
) -> Option<(int, int)>
    decreases w,
{
    if !(0 <= w < widgets.len()) {
        None
    } else {
        match spec_prop_index(widgets[w].properties@, ty, name) {
            Some(pi) => Some((w, pi)),
            None => {
                if !exact && widgets[w].parent is Some && (widgets[w].parent->0 as int) < w {
                    spec_theme_find(widgets, widgets[w].parent->0 as int, ty, name, exact)
                } else {
                    None
                }
            },
        }
    }
}

/// The position of the first property with this type and name on one
/// widget, if any.
fn prop_index(props: &Vec<Property>, ty: PropertyType, name: &String) -> (r: Option<usize>)
    ensures
        r is Some <==> spec_prop_index(props@, ty, name@) is Some,
        r is Some ==> Some(r->0 as int) == spec_prop_index(props@, ty, name@),
{
    let mut i: usize = 0;
    while i < props.len()
        invariant
            i <= props@.len(),
            forall|k: int|
                0 <= k < i as int ==> !((#[trigger] props@[k]).name@ == name@
                    && spec_property_value_type(props@[k].value) == ty),
        decreases props@.len() - i,
    {
        if props[i].name.eq(name) && property_value_type(&props[i].value) == ty {
            proof {
                lemma_prop_index_found(props@, ty, name@, i as int);
            }
            return Some(i);
        }
        i += 1;
    }
    proof {
        lemma_prop_index_absent(props@, ty, name@);
    }
    None
}

impl ThemeConfig {
    /// The position of the first widget with this name, if any.
    pub fn config_find_widget(&self, name: &String) -> (r: Option<usize>)
        ensures
            r is Some ==> r->0 < self.widgets@.len() && self.widgets@[r->0 as int].name@ == name@
                && forall|k: int|
                0 <= k < r->0 as int ==> (#[trigger] self.widgets@[k]).name@ != name@,
            r is None ==> forall|k: int|
                0 <= k < self.widgets@.len() ==> (#[trigger] self.widgets@[k]).name@ != name@,
    {
        let mut i: usize = 0;
        while i < self.widgets.len()
            invariant
                i <= self.widgets@.len(),
                forall|k: int| 0 <= k < i as int ==> (#[trigger] self.widgets@[k]).name@ != name@,
            decreases self.widgets@.len() - i,
        {
            if self.widgets[i].name.eq(name) {
                return Some(i);
            }
            i += 1;
        }
        None
    }

    /// The property of this type and name on a widget.  An exact search
    /// looks only at the widget itself; otherwise the parents are
    /// searched in turn until a match is found.
    pub fn theme_find_property(
        &self,
        widget: usize,
        ty: PropertyType,
        name: &String,
        exact: bool,
    ) -> (r: Option<&Property>)
        ensures
            r is Some <==> spec_theme_find(self.widgets@, widget as int, ty, name@, exact)
                is Some,
            r is Some ==> ({
                let f = spec_theme_find(self.widgets@, widget as int, ty, name@, exact)->0;
                r->0 == &self.widgets@[f.0].properties@[f.1]
            }),
        decreases widget,
    {
        if widget >= self.widgets.len() {
            return None;
        }
        match prop_index(&self.widgets[widget].properties, ty, name) {
            Some(pi) => {
                proof {
                    lemma_prop_index_some(self.widgets@[widget as int].properties@, ty, name@);
                }
                Some(&self.widgets[widget].properties[pi])
            },
            None => {
                if !exact {
                    match self.widgets[widget].parent {
                        Some(p) => {
                            if p < widget {
                                self.theme_find_property(p, ty, name, exact)
                            } else {
                                None
                            }
                        },
                        None => None,
                    }
                } else {
                    None
                }
            },
        }
    }
}

/// A signed 32-bit number read from characters: an optional leading
/// minus sign, then decimal digits.
pub open spec fn spec_parse_i32(s: Seq<char>) -> Option<int> {
    if s.len() > 0 && s[0] == '-' {
        if spec_is_digits(s.drop_first()) && spec_digits_value(s.drop_first()) <= 0x8000_0000 {
            Some(-spec_digits_value(s.drop_first()))
        } else {
            None
        }
    } else {
        if spec_is_digits(s) && spec_digits_value(s) <= 0x7FFF_FFFF {
            Some(spec_digits_value(s))
        } else {
            None
        }
    }
}

/// One field of a range list: either a single index, giving a
/// one-element range, or two indices joined by a dash.
pub open spec fn spec_parse_range_field(f: Seq<char>) -> Option<(int, int)> {
    if f.len() == 0 {
        None
    } else {
        match spec_parse_i32(f) {
            Some(v) => Some((v, v)),
            None => {
                let k = 1 + spec_find_char(f.skip(1), '-');
                if 1 <= k < f.len() {
                    match (spec_parse_i32(f.take(k)), spec_parse_i32(f.skip(k + 1))) {
                        (Some(a), Some(b)) => Some((a, b)),
                        _ => None,
                    }
                } else {
                    None
                }
            },
        }
    }
}

/// The ranges of a list of fields: every field must parse.
pub open spec fn spec_ranges_of(fields: Seq<Seq<char>>) -> Option<Seq<(int, int)>>
    decreases fields.len(),
{
    if fields.len() == 0 {
        Some(Seq::empty())
    } else {
        match (spec_parse_range_field(fields[0]), spec_ranges_of(fields.drop_first())) {
            (Some(p), Some(rest)) => Some(seq![p] + rest),
            _ => None,
        }
    }
}

/// When every field parses, the ranges line up with the fields.
pub proof fn lemma_ranges_of_some(fields: Seq<Seq<char>>)
    requires
        spec_ranges_of(fields) is Some,
    ensures
        spec_ranges_of(fields)->0.len() == fields.len(),
        forall|i: int|
            0 <= i < fields.len() ==> spec_parse_range_field(#[trigger] fields[i]) is Some
                && spec_ranges_of(fields)->0[i] == spec_parse_range_field(fields[i])->0,
    decreases fields.len(),
{
    if fields.len() > 0 {
        lemma_ranges_of_some(fields.drop_first());
        assert forall|i: int|
            0 <= i < fields.len() implies spec_parse_range_field(#[trigger] fields[i]) is Some
            && spec_ranges_of(fields)->0[i] == spec_parse_range_field(fields[i])->0 by {
            if i > 0 {
                assert(fields[i] == fields.drop_first()[i - 1]);
                assert(spec_ranges_of(fields)->0[i] == spec_ranges_of(fields.drop_first())->0[i
                    - 1]);
            }
        }
    }
}

/// A field that does not parse fails the whole list.
pub proof fn lemma_ranges_of_fail(fields: Seq<Seq<char>>, i: int)
    requires
        0 <= i < fields.len(),
        spec_parse_range_field(fields[i]) is None,
    ensures
        spec_ranges_of(fields) is None,
    decreases i,
{
    if i > 0 {
        assert(fields.drop_first()[i - 1] == fields[i]);
        lemma_ranges_of_fail(fields.drop_first(), i - 1);
    }
}

/// When every field parses, the list parses.
pub proof fn lemma_ranges_of_build(fields: Seq<Seq<char>>)
    requires
        forall|i: int| 0 <= i < fields.len() ==> spec_parse_range_field(#[trigger] fields[i])
            is Some,
    ensures
        spec_ranges_of(fields) is Some,
    decreases fields.len(),
{
    if fields.len() > 0 {
        assert forall|i: int|
            0 <= i < fields.drop_first().len() implies spec_parse_range_field(
            #[trigger] fields.drop_first()[i],
        ) is Some by {
            assert(fields.drop_first()[i] == fields[i + 1]);
        }
        lemma_ranges_of_build(fields.drop_first());
    }
}

/// One field of a range list; see [`spec_parse_range_field`].
fn parse_range_field(f: &Vec<char>) -> (r: Option<RofiRangePair>)
    ensures
        r is Some <==> spec_parse_range_field(f@) is Some,
        r is Some ==> ({
            let p = spec_parse_range_field(f@)->0;
            r->0.start as int == p.0 && r->0.stop as int == p.1
        }),
{
    let n = f.len();
    if n == 0 {
        return None;
    }
    match parse_i32_chars(f) {
        Some(v) => Some(RofiRangePair { start: v, stop: v }),
        None => {
            proof {
                assert(spec_parse_i32(f@) is None);
            }
            let rel = find_char_from(f, 1, '-');
            let k = 1 + rel;
            if k < n {
                let left = copy_range(f, 0, k);
                let right = copy_range(f, k + 1, n);
                proof {
                    assert(left@ =~= f@.take(k as int));
                    assert(right@ =~= f@.skip(k as int + 1));
                }
                match (parse_i32_chars(&left), parse_i32_chars(&right)) {
                    (Some(a), Some(b)) => Some(RofiRangePair { start: a, stop: b }),
                    _ => None,
                }
            } else {
                None
            }
        },
    }
}

/// Splits a comma-separated list of indices and index ranges, such as a
/// pair of dash-joined indices; every field must parse, and runs of
/// commas collapse.
pub fn parse_ranges(input: &Vec<char>) -> (r: Option<Vec<RofiRangePair>>)
    ensures
        r is Some <==> spec_ranges_of(spec_split(input@, ',')) is Some,
        r is Some ==> ({
            let ranges = spec_ranges_of(spec_split(input@, ','))->0;
            r->0@.len() == ranges.len() && forall|i: int|
                0 <= i < ranges.len() ==> (#[trigger] r->0@[i]).start as int == ranges[i].0
                    && r->0@[i].stop as int == ranges[i].1
        }),
{
    let ghost full = input@;
    let ghost fields = spec_split(full, ',');
    let n = input.len();
    let mut out: Vec<RofiRangePair> = Vec::new();
    let mut i: usize = 0;
    proof {
        assert(full.skip(0) =~= full);
        assert(fields.skip(0) =~= fields);
    }
    while i < n
        invariant
            full == input@,
            fields == spec_split(full, ','),
            n == full.len(),
            i <= n,
            out@.len() <= fields.len(),
            spec_split(full.skip(i as int), ',') == fields.skip(out@.len() as int),
            forall|k: int|
                0 <= k < out@.len() ==> spec_parse_range_field(#[trigger] fields[k]) is Some
                    && out@[k].start as int == (spec_parse_range_field(fields[k])->0).0
                    && out@[k].stop as int == (spec_parse_range_field(fields[k])->0).1,
        decreases n - i,
    {
        if input[i] == ',' {
            proof {
                assert(full.skip(i as int).drop_first() =~= full.skip(i as int + 1));
            }
            i += 1;
        } else {
            let start = i;
            let mut j: usize = i + 1;
            while j < n && input[j] != ','
                invariant
                    full == input@,
                    n == full.len(),
                    start < j <= n,
                    forall|k: int| (start as int) < k < (j as int) ==> full[k] != ',',
                    full[start as int] != ',',
                decreases n - j,
            {
                j += 1;
            }
            proof {
                let tail = full.skip(start as int);
                assert forall|k: int| 0 <= k < j as int - start as int implies tail[k] != ',' by {
                    assert(tail[k] == full[start as int + k]);
                }
                if (j as int) < n as int {
                    assert(tail[j as int - start as int] == full[j as int]);
                }
                lemma_field_len_char(tail, ',', j as int - start as int);
            }
            let field = copy_range(input, start, j);
            proof {
                let tail = full.skip(start as int);
                let wl = j as int - start as int;
                let word = tail.subrange(0, wl);
                assert(spec_split(tail, ',') == seq![word] + spec_split(tail.skip(wl), ','));
                assert(tail.skip(wl) =~= full.skip(j as int));
                let rl = out@.len() as int;
                assert(fields.skip(rl) == seq![word] + spec_split(full.skip(j as int), ','));
                assert(fields.skip(rl).len() >= 1);
                assert(rl < fields.len());
                assert(fields[rl] == fields.skip(rl)[0]);
                assert(fields[rl] == word);
                assert(fields.skip(rl + 1) =~= fields.skip(rl).drop_first());
                assert(spec_split(full.skip(j as int), ',') =~= fields.skip(rl).drop_first());
                assert(field@ =~= word);
            }
            match parse_range_field(&field) {
                Some(pair) => {
                    out.push(pair);
                },
                None => {
                    proof {
                        lemma_ranges_of_fail(fields, out@.len() as int);
                    }
                    return None;
                },
            }
            i = j;
        }
    }
    proof {
        assert(full.skip(n as int) =~= Seq::<char>::empty());
        assert(fields.skip(out@.len() as int).len() == 0);
        assert(out@.len() == fields.len());
        lemma_ranges_of_build(fields);
        lemma_ranges_of_some(fields);
        assert forall|k: int|
            0 <= k < fields.len() implies (#[trigger] out@[k]).start as int == spec_ranges_of(
            fields,
        )->0[k].0 && out@[k].stop as int == spec_ranges_of(fields)->0[k].1 by {
            assert(spec_parse_range_field(fields[k]) is Some);
        }
    }
    Some(out)
}

/// The replacement character inserted for bytes that UTF-8 rejects.
pub open spec fn spec_replacement_char() -> char {
    '\u{FFFD}'
}

/// The given bytes coerced to valid text: each well-formed scalar
/// encoding is decoded, and each byte that starts no well-formed
/// encoding becomes one replacement character.
pub open spec fn spec_force_utf8(bytes: Seq<u8>) -> Seq<char>
    decreases bytes.len(),
{
    if bytes.len() == 0 {
        Seq::empty()
    } else if vstd::utf8::valid_first_scalar(bytes) {
        seq![vstd::utf8::decode_first_scalar(bytes) as char] + spec_force_utf8(
            vstd::utf8::pop_first_scalar(bytes),
        )
    } else {
        seq![spec_replacement_char()] + spec_force_utf8(bytes.drop_first())
    }
}

/// On bytes that already are valid UTF-8, the coercion is exactly the
/// decoding: nothing is replaced.
pub proof fn lemma_force_utf8_of_valid(bytes: Seq<u8>)
    requires
        vstd::utf8::valid_utf8(bytes),
    ensures
        spec_force_utf8(bytes) == vstd::utf8::decode_utf8(bytes),
    decreases bytes.len(),
{
    if bytes.len() > 0 {
        lemma_force_utf8_of_valid(vstd::utf8::pop_first_scalar(bytes));
    }
}

/// Relies on char::from_u32: every Unicode scalar value converts to the
/// character with that code point.
#[verifier::external_body]
fn char_from_scalar(v: u32) -> (r: char)
    requires
        vstd::utf8::is_scalar(v),
    ensures
        r as u32 == v,
{
    match char::from_u32(v) {
        Some(c) => c,
        None => '\u{FFFD}',
    }
}

/// Reads the scalar encoded at position `i`, if the bytes there begin a
/// well-formed encoding: the decoded character and the encoding's
/// length.
fn first_scalar_at(bytes: &Vec<u8>, i: usize) -> (r: Option<(char, usize)>)
    requires
        i < bytes@.len(),
    ensures
        r is Some ==> vstd::utf8::valid_first_scalar(bytes@.skip(i as int)) && 1 <= (r->0).1
            && i + (r->0).1 <= bytes@.len() && (r->0).1 == vstd::utf8::length_of_first_scalar(
            bytes@.skip(i as int),
        ) && (r->0).0 == (vstd::utf8::decode_first_scalar(bytes@.skip(i as int)) as char),
        r is None ==> !vstd::utf8::valid_first_scalar(bytes@.skip(i as int)),
{
    let ghost tail = bytes@.skip(i as int);
    let n = bytes.len();
    let b0 = bytes[i];
    proof {
        assert(tail[0] == bytes@[i as int]);
    }
    if b0 <= 0x7f {
        let v = (b0 & 0x7f) as u32;
        proof {
            assert(v == vstd::utf8::codepoint_width_1(b0));
            assert((b0 & 0x7fu8) as u32 <= 0x7fu32) by (bit_vector);
            vstd::utf8::char_u32_cast((v as char), v);
        }
        Some((char_from_scalar(v), 1))
    } else if 0xc0 <= b0 && b0 <= 0xdf {
        if n - i > 1 && 0x80 <= bytes[i + 1] && bytes[i + 1] <= 0xbf {
            let b1 = bytes[i + 1];
            proof {
                assert(tail[1] == bytes@[i as int + 1]);
            }
            let v = (((b0 & 0x1f) as u32) << 6) | ((b1 & 0x3f) as u32);
            proof {
                assert(v == vstd::utf8::codepoint_width_2(b0, b1));
                assert((((b0 & 0x1fu8) as u32) << 6) | ((b1 & 0x3fu8) as u32) <= 0x7ffu32)
                    by (bit_vector);
            }
            if v >= 0x80 {
                proof {
                    vstd::utf8::char_u32_cast((v as char), v);
                }
                Some((char_from_scalar(v), 2))
            } else {
                None
            }
        } else {
            None
        }
    } else if 0xe0 <= b0 && b0 <= 0xef {
        if n - i > 2 && 0x80 <= bytes[i + 1] && bytes[i + 1] <= 0xbf && 0x80 <= bytes[i + 2]
            && bytes[i + 2] <= 0xbf {
            let b1 = bytes[i + 1];
            let b2 = bytes[i + 2];
            proof {
                assert(tail[1] == bytes@[i as int + 1]);
                assert(tail[2] == bytes@[i as int + 2]);
            }
            let v = (((b0 & 0x0f) as u32) << 12) | (((b1 & 0x3f) as u32) << 6) | ((b2
                & 0x3f) as u32);
            proof {
                assert(v == vstd::utf8::codepoint_width_3(b0, b1, b2));
                assert((((b0 & 0x0fu8) as u32) << 12) | (((b1 & 0x3fu8) as u32) << 6) | ((b2
                    & 0x3fu8) as u32) <= 0xffffu32) by (bit_vector);
            }
            if v >= 0x800 && !(0xd800 <= v && v <= 0xdfff) {
                proof {
                    vstd::utf8::char_u32_cast((v as char), v);
                }
                Some((char_from_scalar(v), 3))
            } else {
                None
            }
        } else {
            None
        }
    } else if 0xf0 <= b0 && b0 <= 0xf7 {
        if n - i > 3 && 0x80 <= bytes[i + 1] && bytes[i + 1] <= 0xbf && 0x80 <= bytes[i + 2]
            && bytes[i + 2] <= 0xbf && 0x80 <= bytes[i + 3] && bytes[i + 3] <= 0xbf {
            let b1 = bytes[i + 1];
            let b2 = bytes[i + 2];
            let b3 = bytes[i + 3];
            proof {
                assert(tail[1] == bytes@[i as int + 1]);
                assert(tail[2] == bytes@[i as int + 2]);
                assert(tail[3] == bytes@[i as int + 3]);
            }
            let v = (((b0 & 0x07) as u32) << 18) | (((b1 & 0x3f) as u32) << 12) | (((b2
                & 0x3f) as u32) << 6) | ((b3 & 0x3f) as u32);
            proof {
                assert(v == vstd::utf8::codepoint_width_4(b0, b1, b2, b3));
            }
            if 0x10000 <= v && v <= 0x10ffff {
                proof {
                    vstd::utf8::char_u32_cast((v as char), v);
                }
                Some((char_from_scalar(v), 4))
            } else {
                None
            }
        } else {
            None
        }
    } else {
        None
    }
}

/// Coerces bytes to valid text, replacing every rejected byte with the
/// replacement character; see [`spec_force_utf8`].
pub fn force_utf8(bytes: &Vec<u8>) -> (r: Vec<char>)
    ensures
        r@ == spec_force_utf8(bytes@),
{
    let ghost full = bytes@;
    let ghost goal = spec_force_utf8(full);
    let n = bytes.len();
    let mut out: Vec<char> = Vec::new();
    let mut i: usize = 0;
    proof {
        assert(full.skip(0) =~= full);
    }
    while i < n
        invariant
            full == bytes@,
            goal == spec_force_utf8(full),
            n == full.len(),
            i <= n,
            goal == out@ + spec_force_utf8(full.skip(i as int)),
        decreases n - i,
    {
        let ghost tail = full.skip(i as int);
        match first_scalar_at(bytes, i) {
            Some((c, l)) => {
                out.push(c);
                proof {
                    assert(vstd::utf8::pop_first_scalar(tail) =~= full.skip(i as int + l as int));
                }
                i += l;
            },
            None => {
                out.push('\u{FFFD}');
                proof {
                    assert(tail.drop_first() =~= full.skip(i as int + 1));
                }
                i += 1;
            },
        }
    }
    proof {
        assert(full.skip(n as int) =~= Seq::<u8>::empty());
    }
    out
}

/// Splits text on spaces into its words; runs of spaces collapse.
pub fn split_words(input: &Vec<char>) -> (r: Vec<Vec<char>>)
    ensures
        r@.len() == spec_split(input@, ' ').len(),
        forall|k: int| 0 <= k < r@.len() ==> (#[trigger] r@[k])@ == spec_split(input@, ' ')[k],
{
    let ghost full = input@;
    let ghost words = spec_split(full, ' ');
    let n = input.len();
    let mut r: Vec<Vec<char>> = Vec::new();
    let mut i: usize = 0;
    proof {
        assert(full.skip(0) =~= full);
        assert(words.skip(0) =~= words);
    }
    while i < n
        invariant
            full == input@,
            words == spec_split(full, ' '),
            n == full.len(),
            i <= n,
            r@.len() <= words.len(),
            spec_split(full.skip(i as int), ' ') == words.skip(r@.len() as int),
            forall|k: int| 0 <= k < r@.len() ==> (#[trigger] r@[k])@ == words[k],
        decreases n - i,
    {
        if input[i] == ' ' {
            proof {
                assert(full.skip(i as int).drop_first() =~= full.skip(i as int + 1));
            }
            i += 1;
        } else {
            let start = i;
            let mut j: usize = i + 1;
            while j < n && input[j] != ' '
                invariant
                    full == input@,
                    n == full.len(),
                    start < j <= n,
                    forall|k: int| (start as int) < k < (j as int) ==> full[k] != ' ',
                    full[start as int] != ' ',
                decreases n - j,
            {
                j += 1;
            }
            proof {
                let tail = full.skip(start as int);
                assert forall|k: int| 0 <= k < j as int - start as int implies tail[k] != ' ' by {
                    assert(tail[k] == full[start as int + k]);
                }
                if (j as int) < n as int {
                    assert(tail[j as int - start as int] == full[j as int]);
                }
                lemma_field_len_char(tail, ' ', j as int - start as int);
            }
            let word = copy_range(input, start, j);
            proof {
                let tail = full.skip(start as int);
                let wl = j as int - start as int;
                let w = tail.subrange(0, wl);
                assert(spec_split(tail, ' ') == seq![w] + spec_split(tail.skip(wl), ' '));
                assert(tail.skip(wl) =~= full.skip(j as int));
                let rl = r@.len() as int;
                assert(words.skip(rl) == seq![w] + spec_split(full.skip(j as int), ' '));
                assert(words.skip(rl).len() >= 1);
                assert(rl < words.len());
                assert(words[rl] == words.skip(rl)[0]);
                assert(words[rl] == w);
                assert(words.skip(rl + 1) =~= words.skip(rl).drop_first());
                assert(spec_split(full.skip(j as int), ' ') =~= words.skip(rl).drop_first());
                assert(word@ =~= w);
            }
            r.push(word);
            i = j;
        }
    }
    proof {
        assert(full.skip(n as int) =~= Seq::<char>::empty());
        assert(words.skip(r@.len() as int).len() == 0);
    }
    r
}

/// Parses a command template into arguments: the `{key}` substitutions
/// and `[` `]` optional groups are applied first, then the result is
/// split on spaces.
pub fn parse_setup(template: &Vec<char>, pairs: &Vec<ReplacePair>) -> (r: Vec<Vec<char>>)
    ensures
        r@.len() == spec_split(spec_replace(template@, pairs@), ' ').len(),
        forall|k: int|
            0 <= k < r@.len() ==> (#[trigger] r@[k])@ == spec_split(
                spec_replace(template@, pairs@),
                ' ',
            )[k],
{
    let substituted = string_replace_if_exists(template, pairs);
    split_words(&substituted)
}

/// A startup-notification context with its absent fields filled from the
/// command, the way the host completes it before spawning: the name and
/// the command default to the command line itself, the binary to the
/// command's first word; fields that were set stay as they were.
pub fn execute_context_with_defaults(
    ctx: RofiHelperExecuteContext,
    command: &Vec<char>,
) -> (r: RofiHelperExecuteContext)
    ensures
        ctx.name is Some ==> r.name == ctx.name,
        ctx.name is None ==> r.name is Some && r.name->0@ == command@,
        ctx.binary is Some ==> r.binary == ctx.binary,
        ctx.binary is None ==> r.binary is Some && r.binary->0@ == (if spec_split(
            command@,
            ' ',
        ).len() > 0 {
            spec_split(command@, ' ')[0]
        } else {
            Seq::<char>::empty()
        }),
        ctx.command is Some ==> r.command == ctx.command,
        ctx.command is None ==> r.command is Some && r.command->0@ == command@,
        r.description == ctx.description,
        r.icon == ctx.icon,
        r.app_id == ctx.app_id,
        r.wmclass == ctx.wmclass,
{
    let command_text = chars_to_string(command);
    let name = match ctx.name {
        Some(n) => Some(n),
        None => Some(command_text.clone()),
    };
    let binary = match ctx.binary {
        Some(b) => Some(b),
        None => {
            let words = split_words(command);
            if words.len() > 0 {
                Some(chars_to_string(&words[0]))
            } else {
                Some(String::new())
            }
        },
    };
    let cmd = match ctx.command {
        Some(c) => Some(c),
        None => Some(command_text),
    };
    RofiHelperExecuteContext {
        name,
        binary,
        description: ctx.description,
        icon: ctx.icon,
        app_id: ctx.app_id,
        wmclass: ctx.wmclass,
        command: cmd,
    }
}

} // verus!
