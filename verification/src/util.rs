//! Message summaries and the fuzzy keyword score.
use vstd::prelude::*;
use vstd::string::*;
use crate::text::{
    blank_line_breaks, blank_line_breaks_str, chars_of, collapse_whitespace, contains,
    contains_chars, decimal, is_ws, join, lemma_no_occurrence_in_prefix,
    lemma_no_occurrence_in_suffix, occurs_at, push_decimal, push_str, replace_all, replace_str,
    spec_lowercase, take_chars, take_str, to_lowercase, trim, trim_end, trim_start, trim_str,
    words, words_after,
};

verus! {

/// Length of the longest common subsequence of `a` and `b`.
pub open spec fn lcs(a: Seq<char>, b: Seq<char>) -> nat
    decreases a.len() + b.len(),
{
    if a.len() == 0 || b.len() == 0 {
        0
    } else if a.last() == b.last() {
        lcs(a.drop_last(), b.drop_last()) + 1
    } else {
        let x = lcs(a.drop_last(), b);
        let y = lcs(a, b.drop_last());
        if x >= y {
            x
        } else {
            y
        }
    }
}

/// Levenshtein distance between `a` and `b`.
pub open spec fn edit_distance(a: Seq<char>, b: Seq<char>) -> nat
    decreases a.len() + b.len(),
{
    if a.len() == 0 {
        b.len()
    } else if b.len() == 0 {
        a.len()
    } else if a.last() == b.last() {
        edit_distance(a.drop_last(), b.drop_last())
    } else {
        let x = edit_distance(a.drop_last(), b.drop_last());
        let y = edit_distance(a.drop_last(), b);
        let z = edit_distance(a, b.drop_last());
        1 + if x <= y && x <= z {
            x
        } else if y <= z {
            y
        } else {
            z
        }
    }
}

proof fn lemma_lcs_bound(a: Seq<char>, b: Seq<char>)
    ensures
        lcs(a, b) <= a.len(),
        lcs(a, b) <= b.len(),
    decreases a.len() + b.len(),
{
    if a.len() == 0 || b.len() == 0 {
    } else if a.last() == b.last() {
        lemma_lcs_bound(a.drop_last(), b.drop_last());
    } else {
        lemma_lcs_bound(a.drop_last(), b);
        lemma_lcs_bound(a, b.drop_last());
    }
}

proof fn lemma_edit_distance_bound(a: Seq<char>, b: Seq<char>)
    ensures
        edit_distance(a, b) <= if a.len() >= b.len() {
            a.len()
        } else {
            b.len()
        },
    decreases a.len() + b.len(),
{
    if a.len() == 0 || b.len() == 0 {
    } else if a.last() == b.last() {
        lemma_edit_distance_bound(a.drop_last(), b.drop_last());
    } else {
        lemma_edit_distance_bound(a.drop_last(), b.drop_last());
    }
}

proof fn lemma_lcs_steps(a: Seq<char>, b: Seq<char>)
    ensures
        b.len() > 0 ==> lcs(a, b) >= lcs(a, b.drop_last()),
        a.len() > 0 ==> lcs(a, b) <= lcs(a.drop_last(), b) + 1,
    decreases a.len() + b.len(),
{
    if a.len() > 0 && b.len() > 0 {
        lemma_lcs_steps(a, b.drop_last());
        lemma_lcs_steps(a.drop_last(), b);
    }
}

proof fn lemma_lcs_suffix(a: Seq<char>, c: Seq<char>)
    ensures
        lcs(a, c + a) == a.len(),
    decreases a.len(),
{
    lemma_lcs_bound(a, c + a);
    if a.len() > 0 {
        assert((c + a).drop_last() =~= c + a.drop_last());
        assert((c + a).last() == a.last());
        lemma_lcs_suffix(a.drop_last(), c);
    }
}

proof fn lemma_lcs_extend(a: Seq<char>, z: Seq<char>, y: Seq<char>)
    ensures
        lcs(a, z + y) >= lcs(a, z),
    decreases y.len(),
{
    if y.len() > 0 {
        assert((z + y).drop_last() =~= z + y.drop_last());
        lemma_lcs_steps(a, z + y);
        lemma_lcs_extend(a, z, y.drop_last());
    } else {
        assert(z + y =~= z);
    }
}

proof fn lemma_edit_distance_lower(a: Seq<char>, b: Seq<char>)
    ensures
        edit_distance(a, b) >= a.len() - b.len(),
        edit_distance(a, b) >= b.len() - a.len(),
    decreases a.len() + b.len(),
{
    if a.len() > 0 && b.len() > 0 {
        lemma_edit_distance_lower(a.drop_last(), b.drop_last());
        lemma_edit_distance_lower(a.drop_last(), b);
        lemma_edit_distance_lower(a, b.drop_last());
    }
}

/// The common subsequence is no longer than either word; the edit distance
/// lies between the difference of the lengths and the longer length; against
/// an empty word the distance is the other word's length.
pub proof fn lcs_edit_distance_bounds_law(a: Seq<char>, b: Seq<char>)
    ensures
        lcs(a, b) <= a.len(),
        lcs(a, b) <= b.len(),
        a.len() - b.len() <= edit_distance(a, b),
        b.len() - a.len() <= edit_distance(a, b),
        edit_distance(a, b) <= a.len() || edit_distance(a, b) <= b.len(),
        b.len() == 0 ==> edit_distance(a, b) == a.len() && lcs(a, b) == 0,
        a.len() == 0 ==> edit_distance(a, b) == b.len() && lcs(a, b) == 0,
{
    lemma_lcs_bound(a, b);
    lemma_edit_distance_bound(a, b);
    lemma_edit_distance_lower(a, b);
}

/// A word has all of its characters in common with any text it occurs in.
pub proof fn lcs_of_substring_law(a: Seq<char>, b: Seq<char>)
    requires
        contains(b, a),
    ensures
        lcs(a, b) == a.len(),
{
    let i = choose|i: int| crate::text::occurs_at(b, a, i);
    let c = b.take(i);
    let y = b.skip(i + a.len());
    assert(b =~= (c + a) + y);
    lemma_lcs_suffix(a, c);
    lemma_lcs_extend(a, c + a, y);
    lemma_lcs_bound(a, b);
}

/// A word is at edit distance zero from itself.
pub proof fn edit_distance_self_law(a: Seq<char>)
    ensures
        edit_distance(a, a) == 0,
    decreases a.len(),
{
    if a.len() > 0 {
        edit_distance_self_law(a.drop_last());
    }
}

/// The longest common subsequence of two words.
pub fn lcs_len(a: &Vec<char>, b: &Vec<char>) -> (r: usize)
    requires
        a@.len() < usize::MAX,
        b@.len() < usize::MAX,
    ensures
        r == lcs(a@, b@),
{
    let n = a.len();
    let m = b.len();
    let mut prev: Vec<usize> = Vec::new();
    let mut i: usize = 0;
    while i <= n
        invariant
            n == a@.len(),
            n < usize::MAX,
            i <= n + 1,
            prev@.len() == i,
            forall|k: int| 0 <= k < i ==> prev@[k] == lcs(a@.take(k), b@.take(0)),
        decreases n + 1 - i,
    {
        prev.push(0);
        i = i + 1;
    }
    let mut j: usize = 1;
    while j <= m
        invariant
            n == a@.len(),
            m == b@.len(),
            n < usize::MAX,
            m < usize::MAX,
            1 <= j <= m + 1,
            prev@.len() == n + 1,
            forall|k: int| 0 <= k <= n ==> prev@[k] == lcs(a@.take(k), b@.take(j - 1)),
        decreases m + 1 - j,
    {
        let mut cur: Vec<usize> = Vec::new();
        cur.push(0);
        let mut i: usize = 1;
        while i <= n
            invariant
                n == a@.len(),
                m == b@.len(),
                n < usize::MAX,
                m < usize::MAX,
                1 <= j <= m,
                1 <= i <= n + 1,
                prev@.len() == n + 1,
                cur@.len() == i,
                forall|k: int| 0 <= k <= n ==> prev@[k] == lcs(a@.take(k), b@.take(j - 1)),
                forall|k: int| 0 <= k < i ==> cur@[k] == lcs(a@.take(k), b@.take(j as int)),
            decreases n + 1 - i,
        {
            let ghost ai = a@.take(i as int);
            let ghost bj = b@.take(j as int);
            assert(ai.drop_last() =~= a@.take(i - 1));
            assert(bj.drop_last() =~= b@.take(j - 1));
            assert(ai.last() == a@[i - 1]);
            assert(bj.last() == b@[j - 1]);
            let v = if a[i - 1] == b[j - 1] {
                proof {
                    lemma_lcs_bound(a@.take(i - 1), b@.take(j - 1));
                }
                prev[i - 1] + 1
            } else if prev[i] >= cur[i - 1] {
                prev[i]
            } else {
                cur[i - 1]
            };
            cur.push(v);
            i = i + 1;
        }
        prev = cur;
        j = j + 1;
    }
    assert(a@.take(n as int) =~= a@);
    assert(b@.take(m as int) =~= b@);
    prev[n]
}

/// The Levenshtein distance between two words.
pub fn edit_distance_len(a: &Vec<char>, b: &Vec<char>) -> (r: usize)
    requires
        a@.len() < usize::MAX,
        b@.len() < usize::MAX,
    ensures
        r == edit_distance(a@, b@),
{
    let n = a.len();
    let m = b.len();
    let mut prev: Vec<usize> = Vec::new();
    let mut i: usize = 0;
    while i <= n
        invariant
            n == a@.len(),
            n < usize::MAX,
            i <= n + 1,
            prev@.len() == i,
            forall|k: int| 0 <= k < i ==> prev@[k] == edit_distance(a@.take(k), b@.take(0)),
        decreases n + 1 - i,
    {
        assert(a@.take(i as int).len() == i);
        prev.push(i);
        i = i + 1;
    }
    let mut j: usize = 1;
    while j <= m
        invariant
            n == a@.len(),
            m == b@.len(),
            n < usize::MAX,
            m < usize::MAX,
            1 <= j <= m + 1,
            prev@.len() == n + 1,
            forall|k: int| 0 <= k <= n ==> prev@[k] == edit_distance(a@.take(k), b@.take(j - 1)),
        decreases m + 1 - j,
    {
        let mut cur: Vec<usize> = Vec::new();
        assert(b@.take(j as int).len() == j);
        assert(edit_distance(a@.take(0), b@.take(j as int)) == j);
        cur.push(j);
        let mut i: usize = 1;
        while i <= n
            invariant
                n == a@.len(),
                m == b@.len(),
                n < usize::MAX,
                m < usize::MAX,
                1 <= j <= m,
                1 <= i <= n + 1,
                prev@.len() == n + 1,
                cur@.len() == i,
                forall|k: int| 0 <= k <= n ==> prev@[k] == edit_distance(a@.take(k), b@.take(j - 1)),
                forall|k: int| 0 <= k < i ==> cur@[k] == edit_distance(a@.take(k), b@.take(j as int)),
            decreases n + 1 - i,
        {
            let ghost ai = a@.take(i as int);
            let ghost bj = b@.take(j as int);
            assert(ai.drop_last() =~= a@.take(i - 1));
            assert(bj.drop_last() =~= b@.take(j - 1));
            assert(ai.last() == a@[i - 1]);
            assert(bj.last() == b@[j - 1]);
            let v = if a[i - 1] == b[j - 1] {
                prev[i - 1]
            } else {
                proof {
                    lemma_edit_distance_bound(a@.take(i - 1), b@.take(j - 1));
                }
                let x = prev[i - 1];
                let y = prev[i];
                let z = cur[i - 1];
                let low = if x <= y && x <= z {
                    x
                } else if y <= z {
                    y
                } else {
                    z
                };
                low + 1
            };
            cur.push(v);
            i = i + 1;
        }
        prev = cur;
        j = j + 1;
    }
    assert(a@.take(n as int) =~= a@);
    assert(b@.take(m as int) =~= b@);
    prev[n]
}


/// The keyword score of two (lowercased) words, before the part that depends on
/// the floating-point rate: a fixed answer for words that cannot match, or the
/// raw rank with the number of cells of the comparison table.
pub enum RankScore {
    Final(i32),
    Scored { rank: i32, cells: usize },
}

/// The raw rank of `a` against `b` (both non-empty, `a` not longer): zero when
/// `a` occurs in `b`; otherwise it grows with the characters of `a` outside
/// their longest common subsequence and with their edit distance.
pub open spec fn raw_rank_base(a: Seq<char>, b: Seq<char>) -> int {
    b.len() * (a.len() - lcs(a, b)) + edit_distance(a, b) + 1
}

/// The flag that zeroes the rank of a substring.
pub open spec fn substring_flag(a: Seq<char>, b: Seq<char>) -> int {
    if contains(b, a) {
        0
    } else {
        1
    }
}

/// The score of `a` against `b`. `None` where the computation overflows 32-bit
/// (or, for the table size, machine-word) arithmetic, which the 32-bit
/// computation of the score cannot survive.
pub open spec fn spec_rank_score(a: Seq<char>, b: Seq<char>, gate: i32) -> Option<RankScore> {
    if a.len() == 0 || b.len() == 0 {
        if gate + 1 <= i32::MAX {
            Some(RankScore::Final((gate + 1) as i32))
        } else {
            None
        }
    } else if a.len() > b.len() {
        if gate + 2 <= i32::MAX {
            Some(RankScore::Final((gate + 2) as i32))
        } else {
            None
        }
    } else if b.len() > i32::MAX {
        None
    } else {
        let s = raw_rank_base(a, b);
        let r = substring_flag(a, b) * s;
        if s > i32::MAX || r * r > i32::MAX {
            None
        } else if a.len() * b.len() > usize::MAX {
            None
        } else {
            Some(
                RankScore::Scored {
                    rank: ((r * r) / (a.len() as int) / (b.len() as int)) as i32,
                    cells: (a.len() * b.len()) as usize,
                },
            )
        }
    }
}

/// The score of a word `a` against a longer-or-equal word `b` it does not
/// occur in: with `r = len(b) * (len(a) - LCS(a, b)) + Levenshtein(a, b) + 1`,
/// the rank is `r * r / len(a) / len(b)` over a table of `len(a) * len(b)`
/// cells, for words whose square rank fits in 32 bits; beyond that the
/// 32-bit computation overflows.
pub proof fn rank_formula_law(a: Seq<char>, b: Seq<char>, gate: i32)
    requires
        0 < a.len() <= b.len() <= i32::MAX,
        !contains(b, a),
    ensures
        ({
            let r: int = (b.len() as int) * ((a.len() as int) - (lcs(a, b) as int)) + (edit_distance(
                a,
                b,
            ) as int) + 1;
            &&& r * r <= i32::MAX && a.len() * b.len() <= usize::MAX ==> spec_rank_score(a, b, gate)
                == Some(
                RankScore::Scored {
                    rank: ((r * r) / (a.len() as int) / (b.len() as int)) as i32,
                    cells: (a.len() * b.len()) as usize,
                },
            )
            &&& r * r > i32::MAX ==> spec_rank_score(a, b, gate) is None
        }),
{
    lemma_lcs_bound(a, b);
    let r: int = (b.len() as int) * ((a.len() as int) - (lcs(a, b) as int)) + (edit_distance(a, b) as int)
        + 1;
    assert(r >= 1) by (nonlinear_arith)
        requires
            r == (b.len() as int) * ((a.len() as int) - (lcs(a, b) as int)) + (edit_distance(a, b) as int) + 1,
            lcs(a, b) <= a.len(),
    ;
    assert(r <= r * r) by (nonlinear_arith)
        requires
            r >= 1,
    ;
    assert(raw_rank_base(a, b) == r);
    assert(substring_flag(a, b) == 1);
}

proof fn lemma_rank_fits(r: int, al: int, bl: int)
    requires
        0 <= r,
        r * r <= i32::MAX,
        al >= 1,
        bl >= 1,
    ensures
        0 <= (r * r) / al / bl <= r * r,
{
    assert(0 <= (r * r) / al <= r * r) by (nonlinear_arith)
        requires
            0 <= r * r,
            al >= 1,
    ;
    assert(0 <= ((r * r) / al) / bl <= (r * r) / al) by (nonlinear_arith)
        requires
            0 <= (r * r) / al,
            bl >= 1,
    ;
}

/// A word that occurs in the other scores a raw rank of zero (for words that
/// the 32-bit computation can hold).
pub proof fn substring_rank_law(a: Seq<char>, b: Seq<char>, gate: i32)
    requires
        a.len() > 0,
        contains(b, a),
        b.len() < i32::MAX,
        a.len() * b.len() <= usize::MAX,
    ensures
        spec_rank_score(a, b, gate) == Some(
            RankScore::Scored { rank: 0, cells: (a.len() * b.len()) as usize },
        ),
{
    lcs_of_substring_law(a, b);
    lemma_edit_distance_bound(a, b);
    let i = choose|i: int| crate::text::occurs_at(b, a, i);
    assert(a.len() <= b.len());
    assert(substring_flag(a, b) == 0);
    assert(raw_rank_base(a, b) == edit_distance(a, b) + 1);
}

/// The score of two words that are already lowercased.
pub fn recommend_rank_of(word1: &str, word2: &str, gate_rank: i32) -> (r: Option<RankScore>)
    ensures
        r == spec_rank_score(word1@, word2@, gate_rank),
{
    let a = chars_of(word1);
    let b = chars_of(word2);
    if a.len() == 0 || b.len() == 0 {
        return match gate_rank.checked_add(1) {
            Some(v) => Some(RankScore::Final(v)),
            None => None,
        };
    }
    if a.len() > b.len() {
        return match gate_rank.checked_add(2) {
            Some(v) => Some(RankScore::Final(v)),
            None => None,
        };
    }
    if b.len() > 2147483647 {
        return None;
    }
    let flag: i64 = if contains_chars(&b, &a) {
        0
    } else {
        1
    };
    let l = lcs_len(&a, &b);
    let d = edit_distance_len(&a, &b);
    proof {
        lemma_lcs_bound(a@, b@);
        lemma_edit_distance_bound(a@, b@);
    }
    let al = a.len() as i64;
    let bl = b.len() as i64;
    let missing = al - l as i64;
    assert(0 <= bl * missing <= 2147483647 * 2147483647) by (nonlinear_arith)
        requires
            0 <= bl <= 2147483647,
            0 <= missing <= 2147483647,
    ;
    let s = bl * missing + d as i64 + 1;
    if s > 2147483647 {
        return None;
    }
    let r = flag * s;
    assert(0 <= r * r <= 2147483647 * 2147483647) by (nonlinear_arith)
        requires
            0 <= r <= 2147483647,
    ;
    let sq = r * r;
    if sq > 2147483647 {
        return None;
    }
    proof {
        lemma_rank_fits(r as int, al as int, bl as int);
    }
    let rank = sq / al / bl;
    match a.len().checked_mul(b.len()) {
        Some(cells) => Some(RankScore::Scored { rank: rank as i32, cells }),
        None => None,
    }
}

/// The score of two words, compared without regard to case.
pub fn recommend_rank_score(word1_in: &str, word2_in: &str, gate_rank: i32) -> (r: Option<RankScore>)
    ensures
        r == spec_rank_score(spec_lowercase(word1_in@), spec_lowercase(word2_in@), gate_rank),
{
    let word1 = to_lowercase(word1_in);
    let word2 = to_lowercase(word2_in);
    recommend_rank_of(word1.as_str(), word2.as_str(), gate_rank)
}

/// The score of two words depends on them only through their lowercase
/// forms: words that lowercase alike score alike.
pub proof fn rank_ignores_case_law(w1: Seq<char>, w2: Seq<char>, v1: Seq<char>, v2: Seq<char>, gate: i32)
    requires
        spec_lowercase(w1) == spec_lowercase(v1),
        spec_lowercase(w2) == spec_lowercase(v2),
    ensures
        spec_rank_score(spec_lowercase(w1), spec_lowercase(w2), gate) == spec_rank_score(
            spec_lowercase(v1),
            spec_lowercase(v2),
            gate,
        ),
{
}

/// The final rank: a raw rank at or above the threshold is pushed past the
/// gate. `None` where that addition overflows.
pub fn apply_rank_gate(rank: i32, threshold: i32, gate_rank: i32) -> (r: Option<i32>)
    ensures
        rank >= threshold ==> (if rank + gate_rank <= i32::MAX && rank + gate_rank >= i32::MIN {
            r == Some((rank + gate_rank) as i32)
        } else {
            r is None
        }),
        rank < threshold ==> r == Some(rank),
{
    if rank >= threshold {
        rank.checked_add(gate_rank)
    } else {
        Some(rank)
    }
}

/// Whether a final rank counts as a hit: it lies under `gate_rank`.
pub fn get_recommend_match(rank: i32, gate_rank: i32) -> (b: bool)
    ensures
        b == (rank < gate_rank),
{
    rank < gate_rank
}


/// The one-line summary of a message: line breaks become spaces, image
/// markers become `[图片]`, runs of whitespace become one space; a blank
/// result reads `(无可读文本)`, a long one is cut to 360 characters.
pub open spec fn message_summary(message: Seq<char>) -> Seq<char> {
    let marked = replace_all(blank_line_breaks(message), "[OP:image]"@, "[图片]"@);
    let normalized = join(words(marked), " "@);
    let trimmed = trim(normalized);
    if trimmed.len() == 0 {
        "(无可读文本)"@
    } else {
        take_chars(trimmed, 360)
    }
}

/// The one-line summary of a message.
pub fn build_message_summary(message: &str) -> (r: String)
    ensures
        r@ == message_summary(message@),
{
    let one_line = blank_line_breaks_str(message);
    proof {
        reveal_strlit("[OP:image]");
    }
    let marked = replace_str(one_line.as_str(), "[OP:image]", "[图片]");
    let normalized = collapse_whitespace(marked.as_str());
    let trimmed = trim_str(normalized.as_str());
    if trimmed.as_str().is_empty() {
        String::from_str("(无可读文本)")
    } else {
        take_str(trimmed.as_str(), 360)
    }
}

/// The name of the temporary file a JSON file is first written to: the
/// file's own name (or `data.json`) between a leading dot and `.tmp-` with the
/// process id.
pub open spec fn spec_temp_file_name(own_name: Option<Seq<char>>, pid: nat) -> Seq<char> {
    let name = match own_name {
        Some(n) => n,
        None => "data.json"@,
    };
    "."@ + name + ".tmp-"@ + decimal(pid)
}

/// The name of the temporary file a JSON file is first written to.
pub fn temp_file_name(own_name: Option<&str>, pid: u32) -> (r: String)
    ensures
        r@ == spec_temp_file_name(
            match own_name {
                Some(n) => Some(n@),
                None => None,
            },
            pid as nat,
        ),
{
    let mut r = String::from_str(".");
    match own_name {
        Some(n) => push_str(&mut r, n),
        None => push_str(&mut r, "data.json"),
    }
    push_str(&mut r, ".tmp-");
    push_decimal(&mut r, pid as u64);
    r
}

/// A summary is never empty and never longer than 360 characters.
pub proof fn message_summary_length_law(message: Seq<char>)
    ensures
        0 < message_summary(message).len() <= 360,
{
    reveal_strlit("(无可读文本)");
}

/// The characters of `w` are none of them whitespace.
pub open spec fn no_ws(w: Seq<char>) -> bool {
    forall|i: int| 0 <= i < w.len() ==> !is_ws(#[trigger] w[i])
}

/// Words as a summary holds them: not empty, without whitespace, without an
/// image marker.
pub open spec fn summary_words(ws: Seq<Seq<char>>) -> bool {
    forall|i: int|
        0 <= i < ws.len() ==> (#[trigger] ws[i]).len() > 0 && no_ws(ws[i]) && !contains(
            ws[i],
            "[OP:image]"@,
        )
}

proof fn lemma_replace_identity(x: Seq<char>, p: Seq<char>, to: Seq<char>)
    requires
        p.len() > 0,
        !contains(x, p),
    ensures
        replace_all(x, p, to) == x,
    decreases x.len(),
{
    if x.len() >= p.len() {
        if x.take(p.len() as int) == p {
            assert(x.subrange(0, p.len() as int) =~= x.take(p.len() as int));
            assert(occurs_at(x, p, 0));
        }
        lemma_no_occurrence_in_suffix(x, p, 1);
        assert(x.skip(1) =~= x.drop_first());
        lemma_replace_identity(x.drop_first(), p, to);
        assert(seq![x[0]] + x.drop_first() =~= x);
    }
}

proof fn lemma_marker_chars()
    ensures
        "[OP:image]"@.len() == 10,
        "[图片]"@.len() == 4,
        "[OP:image]"@[0] == '[',
        "[OP:image]"@[1] == 'O',
        "[OP:image]"@[9] == ']',
        "[图片]"@[0] == '[',
        "[图片]"@[1] == '图',
        "[图片]"@[2] == '片',
        "[图片]"@[3] == ']',
        forall|j: int| 1 <= j < 10 ==> "[OP:image]"@[j] != '[',
        forall|j: int| 0 <= j < 10 ==> "[OP:image]"@[j] != ' ',
{
    reveal_strlit("[OP:image]");
    reveal_strlit("[图片]");
    assert forall|j: int| 1 <= j < 10 implies "[OP:image]"@[j] != '[' by {
        assert(j == 1 || j == 2 || j == 3 || j == 4 || j == 5 || j == 6 || j == 7 || j == 8 || j == 9);
    }
    assert forall|j: int| 0 <= j < 10 implies "[OP:image]"@[j] != ' ' by {
        assert(j == 0 || j == 1 || j == 2 || j == 3 || j == 4 || j == 5 || j == 6 || j == 7 || j == 8
            || j == 9);
    }
}

proof fn lemma_replaced_prefix(z: Seq<char>, t: Seq<char>)
    requires
        t.len() > 0,
        forall|i: int| 0 <= i < t.len() ==> t[i] != '[',
        replace_all(z, "[OP:image]"@, "[图片]"@).len() >= t.len(),
        replace_all(z, "[OP:image]"@, "[图片]"@).take(t.len() as int) == t,
    ensures
        z.len() >= t.len(),
        z.take(t.len() as int) == t,
    decreases z.len(),
{
    let p = "[OP:image]"@;
    let r = "[图片]"@;
    lemma_marker_chars();
    let y = replace_all(z, p, r);
    if z.len() < p.len() {
    } else if z.take(p.len() as int) == p {
        assert(y[0] == r[0]);
        assert(y.take(t.len() as int)[0] == y[0]);
    } else {
        let rest = replace_all(z.drop_first(), p, r);
        assert(y == seq![z[0]] + rest);
        assert(y.take(t.len() as int)[0] == y[0]);
        if t.len() > 1 {
            assert(rest.take(t.len() - 1) =~= y.take(t.len() as int).drop_first());
            lemma_replaced_prefix(z.drop_first(), t.drop_first());
            assert(z.take(t.len() as int) =~= seq![z[0]] + z.drop_first().take(t.len() - 1));
        }
        assert(z.take(t.len() as int) =~= t);
    }
}

proof fn lemma_replace_clean(x: Seq<char>)
    ensures
        !contains(replace_all(x, "[OP:image]"@, "[图片]"@), "[OP:image]"@),
    decreases x.len(),
{
    let p = "[OP:image]"@;
    let r = "[图片]"@;
    lemma_marker_chars();
    let out = replace_all(x, p, r);
    if x.len() < p.len() {
        assert(out == x);
        assert forall|k: int| !occurs_at(out, p, k) by {}
    } else if x.take(p.len() as int) == p {
        let y = replace_all(x.skip(p.len() as int), p, r);
        assert(out == r + y);
        lemma_replace_clean(x.skip(p.len() as int));
        if contains(out, p) {
            let k = choose|k: int| occurs_at(out, p, k);
            let w = out.subrange(k, k + 10);
            if k >= 4 {
                assert(w =~= y.subrange(k - 4, k - 4 + 10));
                assert(occurs_at(y, p, k - 4));
                assert(false);
            } else if k == 0 {
                assert(w[1] == out[1]);
                assert(false);
            } else {
                assert(w[0] == out[k]);
                assert(false);
            }
        }
    } else {
        let y = replace_all(x.drop_first(), p, r);
        assert(out == seq![x[0]] + y);
        lemma_replace_clean(x.drop_first());
        if contains(out, p) {
            let k = choose|k: int| occurs_at(out, p, k);
            let w = out.subrange(k, k + 10);
            if k >= 1 {
                assert(w =~= y.subrange(k - 1, k - 1 + 10));
                assert(occurs_at(y, p, k - 1));
                assert(false);
            } else {
                let t = p.drop_first();
                assert(y.take(9) =~= w.drop_first());
                lemma_replaced_prefix(x.drop_first(), t);
                assert(w[0] == out[0]);
                assert(x.take(10) =~= seq![x[0]] + x.drop_first().take(9));
                assert(p =~= seq![p[0]] + t);
                assert(x.take(10) == p);
                assert(false);
            }
        }
    }
}

proof fn lemma_words_split(s: Seq<char>, t: Seq<char>, cur: Seq<char>)
    ensures
        words_after(s + seq![' '] + t, cur) == words_after(s, cur) + words_after(t, seq![]),
    decreases s.len(),
{
    let x = s + seq![' '] + t;
    if s.len() == 0 {
        assert(x.drop_first() =~= t);
        assert(x[0] == ' ');
    } else {
        assert(x[0] == s[0]);
        assert(x.drop_first() =~= s.drop_first() + seq![' '] + t);
        if is_ws(s[0]) {
            lemma_words_split(s.drop_first(), t, seq![]);
            let head: Seq<Seq<char>> = if cur.len() > 0 {
                seq![cur]
            } else {
                seq![]
            };
            assert(head + (words_after(s.drop_first(), seq![]) + words_after(t, seq![])) =~= (head
                + words_after(s.drop_first(), seq![])) + words_after(t, seq![]));
        } else {
            lemma_words_split(s.drop_first(), t, cur.push(s[0]));
        }
    }
}

proof fn lemma_words_single(w: Seq<char>, cur: Seq<char>)
    requires
        no_ws(w),
    ensures
        words_after(w, cur) == if (cur + w).len() > 0 {
            seq![cur + w]
        } else {
            Seq::<Seq<char>>::empty()
        },
    decreases w.len(),
{
    if w.len() == 0 {
        assert(cur + w =~= cur);
    } else {
        assert(!is_ws(w[0]));
        assert forall|i: int| 0 <= i < w.drop_first().len() implies !is_ws(#[trigger] w.drop_first()[i]) by {
            assert(w.drop_first()[i] == w[i + 1]);
        }
        lemma_words_single(w.drop_first(), cur.push(w[0]));
        assert(cur.push(w[0]) + w.drop_first() =~= cur + w);
    }
}

proof fn lemma_words_valid(s: Seq<char>, cur: Seq<char>)
    requires
        no_ws(cur),
        !contains(cur + s, "[OP:image]"@),
    ensures
        summary_words(words_after(s, cur)),
    decreases s.len(),
{
    let p = "[OP:image]"@;
    if s.len() == 0 {
        assert(cur + s =~= cur);
    } else if is_ws(s[0]) {
        let x = cur + s;
        assert(x.take(cur.len() as int) =~= cur);
        lemma_no_occurrence_in_prefix(x, p, cur.len() as int);
        assert(x.skip(cur.len() as int + 1) =~= s.drop_first());
        lemma_no_occurrence_in_suffix(x, p, cur.len() as int + 1);
        assert(Seq::<char>::empty() + s.drop_first() =~= s.drop_first());
        lemma_words_valid(s.drop_first(), seq![]);
        let head: Seq<Seq<char>> = if cur.len() > 0 {
            seq![cur]
        } else {
            seq![]
        };
        let rest = words_after(s.drop_first(), seq![]);
        let all = head + rest;
        assert forall|i: int| 0 <= i < all.len() implies (#[trigger] all[i]).len() > 0 && no_ws(all[i])
            && !contains(all[i], p) by {
            if i < head.len() {
                assert(all[i] == cur);
            } else {
                assert(all[i] == rest[i - head.len()]);
            }
        }
    } else {
        assert(cur.push(s[0]) + s.drop_first() =~= cur + s);
        assert forall|i: int| 0 <= i < cur.push(s[0]).len() implies !is_ws(#[trigger] cur.push(s[0])[i]) by {
            if i < cur.len() {
                assert(cur.push(s[0])[i] == cur[i]);
            }
        }
        lemma_words_valid(s.drop_first(), cur.push(s[0]));
    }
}

/// The characters of text made of summary words joined by single spaces.
pub open spec fn spaced_text(j: Seq<char>) -> bool {
    &&& j.len() > 0
    &&& !is_ws(j[0])
    &&& !is_ws(j.last())
    &&& forall|i: int| 0 <= i < j.len() ==> #[trigger] j[i] == ' ' || !is_ws(j[i])
    &&& !contains(j, "[OP:image]"@)
}

proof fn lemma_join_spaced(ws: Seq<Seq<char>>)
    requires
        ws.len() > 0,
        summary_words(ws),
    ensures
        spaced_text(join(ws, " "@)),
        words(join(ws, " "@)) == ws,
    decreases ws.len(),
{
    reveal_strlit(" ");
    lemma_marker_chars();
    let p = "[OP:image]"@;
    let w = ws.last();
    assert(w == ws[ws.len() - 1]);
    assert(w.len() > 0 && no_ws(w) && !contains(w, p));
    if ws.len() == 1 {
        assert(ws[0] == w);
        lemma_words_single(w, seq![]);
        assert(Seq::<char>::empty() + w =~= w);
        assert(seq![w] =~= ws);
    } else {
        let front = ws.drop_last();
        assert forall|i: int| 0 <= i < front.len() implies (#[trigger] front[i]).len() > 0 && no_ws(front[i])
            && !contains(front[i], p) by {
            assert(front[i] == ws[i]);
        }
        lemma_join_spaced(front);
        let jf = join(front, " "@);
        let j = join(ws, " "@);
        assert(j == jf + " "@ + w);
        assert(j =~= jf + seq![' '] + w);
        let l = jf.len() as int;
        assert(j[0] == jf[0]);
        assert(j.last() == w.last());
        assert(w.last() == w[w.len() - 1]);
        assert forall|i: int| 0 <= i < j.len() implies #[trigger] j[i] == ' ' || !is_ws(j[i]) by {
            if i < l {
                assert(j[i] == jf[i]);
            } else if i > l {
                assert(j[i] == w[i - l - 1]);
            }
        }
        if contains(j, p) {
            let k = choose|k: int| occurs_at(j, p, k);
            let sub = j.subrange(k, k + 10);
            if k + 10 <= l {
                assert(sub =~= jf.subrange(k, k + 10));
                assert(occurs_at(jf, p, k));
            } else if k > l {
                assert(sub =~= w.subrange(k - l - 1, k - l - 1 + 10));
                assert(occurs_at(w, p, k - l - 1));
            } else {
                assert(sub[l - k] == j[l]);
                assert(false);
            }
        }
        lemma_words_split(jf, w, seq![]);
        lemma_words_single(w, seq![]);
        assert(Seq::<char>::empty() + w =~= w);
        assert(front.push(w) =~= ws);
        assert(front + seq![w] =~= ws);
    }
}

proof fn lemma_spaced_trims(j: Seq<char>)
    requires
        spaced_text(j),
    ensures
        trim(j) == j,
        trim_end(j) == j,
        trim_end(j.push(' ')) == j,
        blank_line_breaks(j) == j,
        blank_line_breaks(j.push(' ')) == j.push(' '),
{
    assert(j.push(' ').drop_last() =~= j);
    assert(blank_line_breaks(j) =~= j);
    assert(blank_line_breaks(j.push(' ')) =~= j.push(' '));
}

proof fn lemma_join_prefix(ws: Seq<Seq<char>>, n: int) -> (short: Seq<Seq<char>>)
    requires
        ws.len() > 0,
        summary_words(ws),
        0 < n <= join(ws, " "@).len(),
    ensures
        short.len() > 0,
        summary_words(short),
        join(ws, " "@).take(n) == join(short, " "@) || join(ws, " "@).take(n) == join(short, " "@).push(' '),
    decreases ws.len(),
{
    reveal_strlit(" ");
    let p = "[OP:image]"@;
    let w = ws.last();
    assert(w == ws[ws.len() - 1]);
    let cut = w.take(n);
    if ws.len() == 1 {
        assert(ws[0] == w);
        let s1 = seq![w.take(n)];
        assert(w.take(n).len() > 0);
        assert forall|i: int| 0 <= i < w.take(n).len() implies !is_ws(#[trigger] w.take(n)[i]) by {
            assert(w.take(n)[i] == w[i]);
        }
        lemma_no_occurrence_in_prefix(w, p, n);
        assert(s1[0] == w.take(n));
        s1
    } else {
        let front = ws.drop_last();
        assert forall|i: int| 0 <= i < front.len() implies (#[trigger] front[i]).len() > 0 && no_ws(front[i])
            && !contains(front[i], p) by {
            assert(front[i] == ws[i]);
        }
        let jf = join(front, " "@);
        let j = join(ws, " "@);
        assert(j =~= jf + seq![' '] + w);
        let l = jf.len() as int;
        if n <= l {
            assert(j.take(n) =~= jf.take(n));
            if n == 0 {
                front
            } else {
                lemma_join_prefix(front, n)
            }
        } else if n == l + 1 {
            assert(j.take(n) =~= jf.push(' '));
            front
        } else {
            let m = n - l - 1;
            let part = w.take(m);
            assert forall|i: int| 0 <= i < part.len() implies !is_ws(#[trigger] part[i]) by {
                assert(part[i] == w[i]);
            }
            lemma_no_occurrence_in_prefix(w, p, m);
            let short = front.push(part);
            assert forall|i: int| 0 <= i < short.len() implies (#[trigger] short[i]).len() > 0 && no_ws(short[i])
                && !contains(short[i], p) by {
                if i < front.len() {
                    assert(short[i] == front[i]);
                } else {
                    assert(short[i] == part);
                }
            }
            assert(short.drop_last() =~= front);
            assert(short.last() == part);
            assert(j.take(n) =~= jf + seq![' '] + part);
            short
        }
    }
}

proof fn lemma_summary_of_spaced(j: Seq<char>, ws: Seq<Seq<char>>, trailing: bool)
    requires
        ws.len() > 0,
        summary_words(ws),
        j == join(ws, " "@),
        j.len() <= 360,
    ensures
        message_summary(if trailing { j.push(' ') } else { j }) == j,
        trim_end(if trailing { j.push(' ') } else { j }) == j,
{
    let p = "[OP:image]"@;
    let r = "[图片]"@;
    reveal_strlit(" ");
    lemma_marker_chars();
    lemma_join_spaced(ws);
    lemma_spaced_trims(j);
    let x = if trailing {
        j.push(' ')
    } else {
        j
    };
    if trailing && contains(x, p) {
        let k = choose|k: int| occurs_at(x, p, k);
        let sub = x.subrange(k, k + 10);
        if k + 10 <= j.len() {
            assert(sub =~= j.subrange(k, k + 10));
            assert(occurs_at(j, p, k));
        } else {
            assert(sub[9] == x[j.len() as int]);
            assert(false);
        }
    }
    lemma_replace_identity(x, p, r);
    if trailing {
        lemma_words_split(j, seq![], seq![]);
        assert(j + seq![' '] + Seq::<char>::empty() =~= x);
        assert(words(x) =~= ws);
    }
}

proof fn lemma_summary_of_blank_marker()
    ensures
        message_summary("(无可读文本)"@) == "(无可读文本)"@,
        trim_end("(无可读文本)"@) == "(无可读文本)"@,
{
    let e = "(无可读文本)"@;
    reveal_strlit("(无可读文本)");
    assert forall|i: int| 0 <= i < e.len() implies !is_ws(#[trigger] e[i]) by {
        assert(i == 0 || i == 1 || i == 2 || i == 3 || i == 4 || i == 5 || i == 6);
    }
    lemma_marker_chars();
    assert(blank_line_breaks(e) =~= e);
    assert(replace_all(e, "[OP:image]"@, "[图片]"@) == e);
    lemma_words_single(e, seq![]);
    assert(Seq::<char>::empty() + e =~= e);
    assert(words(e) == seq![e]);
    assert(seq![e].len() == 1);
    assert(join(seq![e], " "@) == e);
    assert(trim_start(e) == e);
    assert(trim_end(e) == e);
}

/// Summarising a summary gives it back, up to a space at its end (where the
/// 360-character cut fell just after a word).
pub proof fn summary_idempotent_law(message: Seq<char>)
    ensures
        message_summary(message_summary(message)) == trim_end(message_summary(message)),
{
    let p = "[OP:image]"@;
    let r = "[图片]"@;
    reveal_strlit(" ");
    let b = blank_line_breaks(message);
    let marked = replace_all(b, p, r);
    lemma_replace_clean(b);
    assert(Seq::<char>::empty() + marked =~= marked);
    lemma_words_valid(marked, seq![]);
    let ws = words(marked);
    if ws.len() == 0 {
        assert(join(ws, " "@).len() == 0);
        lemma_summary_of_blank_marker();
    } else {
        lemma_join_spaced(ws);
        let t = join(ws, " "@);
        lemma_spaced_trims(t);
        if t.len() <= 360 {
            assert(message_summary(message) == t);
            lemma_summary_of_spaced(t, ws, false);
        } else {
            let short = lemma_join_prefix(ws, 360);
            let js = join(short, " "@);
            assert(message_summary(message) == t.take(360));
            if t.take(360) == js {
                lemma_summary_of_spaced(js, short, false);
            } else {
                assert(js.push(' ').len() == 360);
                lemma_summary_of_spaced(js, short, true);
            }
        }
    }
}

} // verus!
