//! Character-level text operations with their specifications.
use vstd::prelude::*;
use vstd::string::*;

verus! {

/// The characters of each string.
pub open spec fn strings_view(v: Seq<String>) -> Seq<Seq<char>> {
    v.map_values(|s: String| s@)
}

/// Unicode `White_Space` property (what `char::is_whitespace` documents).
pub open spec fn is_ws(c: char) -> bool {
    ||| ('\u{9}' <= c && c <= '\u{d}')
    ||| c == ' '
    ||| c == '\u{85}'
    ||| c == '\u{a0}'
    ||| c == '\u{1680}'
    ||| ('\u{2000}' <= c && c <= '\u{200a}')
    ||| c == '\u{2028}'
    ||| c == '\u{2029}'
    ||| c == '\u{202f}'
    ||| c == '\u{205f}'
    ||| c == '\u{3000}'
}

pub fn is_whitespace(c: char) -> (b: bool)
    ensures
        b == is_ws(c),
{
    ('\u{9}' <= c && c <= '\u{d}') || c == ' ' || c == '\u{85}' || c == '\u{a0}' || c
        == '\u{1680}' || ('\u{2000}' <= c && c <= '\u{200a}') || c == '\u{2028}' || c
        == '\u{2029}' || c == '\u{202f}' || c == '\u{205f}' || c == '\u{3000}'
}

/// `s` with its leading whitespace removed.
pub open spec fn trim_start(s: Seq<char>) -> Seq<char>
    decreases s.len(),
{
    if s.len() > 0 && is_ws(s[0]) {
        trim_start(s.drop_first())
    } else {
        s
    }
}

/// `s` with its trailing whitespace removed.
pub open spec fn trim_end(s: Seq<char>) -> Seq<char>
    decreases s.len(),
{
    if s.len() > 0 && is_ws(s.last()) {
        trim_end(s.drop_last())
    } else {
        s
    }
}

/// `s` with leading and trailing whitespace removed (`str::trim`).
pub open spec fn trim(s: Seq<char>) -> Seq<char> {
    trim_end(trim_start(s))
}

/// `needle` stands in `hay` at position `i`.
pub open spec fn occurs_at(hay: Seq<char>, needle: Seq<char>, i: int) -> bool {
    &&& 0 <= i
    &&& i + needle.len() <= hay.len()
    &&& hay.subrange(i, i + needle.len()) == needle
}

/// `needle` is a substring of `hay` (`str::contains`).
pub open spec fn contains(hay: Seq<char>, needle: Seq<char>) -> bool {
    exists|i: int| occurs_at(hay, needle, i)
}

/// Position of the first occurrence of `needle` in `hay` at or after `from`.
pub open spec fn is_first_occurrence(hay: Seq<char>, needle: Seq<char>, from: int, i: int) -> bool {
    &&& from <= i
    &&& occurs_at(hay, needle, i)
    &&& forall|k: int| from <= k < i ==> !occurs_at(hay, needle, k)
}

/// `s` begins with `prefix` (`str::starts_with`).
pub open spec fn starts_with(s: Seq<char>, prefix: Seq<char>) -> bool {
    occurs_at(s, prefix, 0)
}

/// The first `n` characters of `s`, or all of it (`chars().take(n)`).
pub open spec fn take_chars(s: Seq<char>, n: nat) -> Seq<char> {
    if n < s.len() {
        s.take(n as int)
    } else {
        s
    }
}

/// The ASCII digit for `d < 10`.
pub open spec fn digit(d: nat) -> char {
    if d == 0 {
        '0'
    } else if d == 1 {
        '1'
    } else if d == 2 {
        '2'
    } else if d == 3 {
        '3'
    } else if d == 4 {
        '4'
    } else if d == 5 {
        '5'
    } else if d == 6 {
        '6'
    } else if d == 7 {
        '7'
    } else if d == 8 {
        '8'
    } else {
        '9'
    }
}

/// Decimal notation of `n`, as `Display` writes an unsigned integer.
pub open spec fn decimal(n: nat) -> Seq<char>
    decreases n,
{
    if n < 10 {
        seq![digit(n)]
    } else {
        decimal(n / 10).push(digit(n % 10))
    }
}

/// What `str::to_lowercase` returns for the given characters.
pub uninterp spec fn spec_lowercase(s: Seq<char>) -> Seq<char>;

/// Calls `str::to_lowercase`. The claim is that the result depends on the
/// characters of the argument alone; the Unicode case mapping itself is not stated.
#[verifier::external_body]
pub(crate) fn to_lowercase(s: &str) -> (r: String)
    ensures
        r@ == spec_lowercase(s@),
{
    s.to_lowercase()
}

/// What `str::to_uppercase` returns for the given characters.
pub uninterp spec fn spec_uppercase(s: Seq<char>) -> Seq<char>;

/// Calls `str::to_uppercase`. The claim is that the result depends on the
/// characters of the argument alone; the Unicode case mapping itself is not stated.
#[verifier::external_body]
pub(crate) fn to_uppercase(s: &str) -> (r: String)
    ensures
        r@ == spec_uppercase(s@),
{
    s.to_uppercase()
}

/// Calls `String::push`, which appends one character.
#[verifier::external_body]
pub(crate) fn string_push(s: &mut String, c: char)
    ensures
        final(s)@ == old(s)@.push(c),
{
    s.push(c)
}

/// The characters of a string slice, in order.
pub fn chars_of(s: &str) -> (v: Vec<char>)
    ensures
        v@ == s@,
{
    let mut v: Vec<char> = Vec::new();
    for c in it: s.chars()
        invariant
            v@ == it.seq().take(it.index() as int),
            it.seq() == s@,
    {
        v.push(c);
    }
    v
}

/// Appends the characters `v[from..to]` to `out`.
pub fn push_chars(out: &mut String, v: &Vec<char>, from: usize, to: usize)
    requires
        from <= to <= v@.len(),
    ensures
        final(out)@ == old(out)@ + v@.subrange(from as int, to as int),
{
    let mut i = from;
    while i < to
        invariant
            from <= i <= to <= v@.len(),
            out@ == old(out)@ + v@.subrange(from as int, i as int),
        decreases to - i,
    {
        string_push(out, v[i]);
        assert(v@.subrange(from as int, i + 1) == v@.subrange(from as int, i as int).push(v@[i as int]));
        i = i + 1;
    }
}

/// A string holding the characters `v[from..to]`.
pub fn string_of(v: &Vec<char>, from: usize, to: usize) -> (s: String)
    requires
        from <= to <= v@.len(),
    ensures
        s@ == v@.subrange(from as int, to as int),
{
    let mut s = String::new();
    push_chars(&mut s, v, from, to);
    s
}

/// Appends a string slice.
pub fn push_str(out: &mut String, t: &str)
    ensures
        final(out)@ == old(out)@ + t@,
{
    out.append(t);
}

/// Bounds `(a, b)` such that `v[a..b]` is `v` trimmed.
pub fn trim_bounds(v: &Vec<char>) -> (r: (usize, usize))
    ensures
        r.0 <= r.1 <= v@.len(),
        v@.subrange(r.0 as int, r.1 as int) == trim(v@),
{
    let n = v.len();
    let mut i: usize = 0;
    assert(v@.subrange(0, n as int) == v@);
    while i < n && is_whitespace(v[i])
        invariant
            i <= n == v@.len(),
            trim_start(v@) == trim_start(v@.subrange(i as int, n as int)),
        decreases n - i,
    {
        assert(v@.subrange(i as int, n as int).drop_first() == v@.subrange(i + 1, n as int));
        i = i + 1;
    }
    let mut j: usize = n;
    assert(trim_start(v@) == v@.subrange(i as int, n as int));
    while j > i && is_whitespace(v[j - 1])
        invariant
            i <= j <= n == v@.len(),
            trim(v@) == trim_end(v@.subrange(i as int, j as int)),
        decreases j,
    {
        assert(v@.subrange(i as int, j as int).drop_last() == v@.subrange(i as int, j - 1));
        j = j - 1;
    }
    (i, j)
}

/// `str::trim_start`, as an owned string.
pub fn trim_str_start(s: &str) -> (r: String)
    ensures
        r@ == trim_start(s@),
{
    let v = chars_of(s);
    let n = v.len();
    let mut i: usize = 0;
    assert(v@.subrange(0, n as int) == v@);
    while i < n && is_whitespace(v[i])
        invariant
            i <= n == v@.len(),
            trim_start(v@) == trim_start(v@.subrange(i as int, n as int)),
        decreases n - i,
    {
        assert(v@.subrange(i as int, n as int).drop_first() == v@.subrange(i + 1, n as int));
        i = i + 1;
    }
    string_of(&v, i, n)
}

/// `str::trim`, as an owned string.
pub fn trim_str(s: &str) -> (r: String)
    ensures
        r@ == trim(s@),
{
    let v = chars_of(s);
    let (a, b) = trim_bounds(&v);
    string_of(&v, a, b)
}

/// Whether `needle` stands in `hay` at position `i`.
pub fn matches_at(hay: &Vec<char>, needle: &Vec<char>, i: usize) -> (b: bool)
    ensures
        b == occurs_at(hay@, needle@, i as int),
{
    if i > hay.len() || needle.len() > hay.len() - i {
        return false;
    }
    let mut j: usize = 0;
    while j < needle.len()
        invariant
            i + needle@.len() <= hay@.len(),
            hay@.len() == hay.len(),
            j <= needle@.len(),
            forall|k: int| 0 <= k < j ==> hay@[i + k] == needle@[k],
        decreases needle@.len() - j,
    {
        if hay[i + j] != needle[j] {
            assert(hay@.subrange(i as int, i + needle@.len())[j as int] != needle@[j as int]);
            return false;
        }
        j = j + 1;
    }
    assert(hay@.subrange(i as int, i + needle@.len()) =~= needle@);
    true
}

/// First occurrence of `needle` in `hay` at or after `from` (`str::find` when `from` is 0).
pub fn find_from(hay: &Vec<char>, needle: &Vec<char>, from: usize) -> (r: Option<usize>)
    ensures
        r matches Some(i) ==> is_first_occurrence(hay@, needle@, from as int, i as int),
        r is None ==> forall|k: int| from <= k ==> !occurs_at(hay@, needle@, k),
{
    let mut i = from;
    while i <= hay.len()
        invariant
            from <= i,
            forall|k: int| from <= k < i ==> !occurs_at(hay@, needle@, k),
        decreases hay@.len() + 1 - i,
    {
        if matches_at(hay, needle, i) {
            return Some(i);
        }
        if i == hay.len() {
            assert forall|k: int| from <= k implies !occurs_at(hay@, needle@, k) by {
                if k > hay@.len() {
                }
            }
            return None;
        }
        i = i + 1;
    }
    None
}

/// Position of the first occurrence of `needle` in `hay` at or after `i`.
pub open spec fn first_index_from(hay: Seq<char>, needle: Seq<char>, i: int) -> Option<int>
    decreases hay.len() + 1 - i,
{
    if i < 0 || i > hay.len() {
        None
    } else if occurs_at(hay, needle, i) {
        Some(i)
    } else {
        first_index_from(hay, needle, i + 1)
    }
}

/// What `first_index_from` finds is the first occurrence at or after `i`;
/// when it finds nothing there is none.
pub proof fn lemma_first_index_from(hay: Seq<char>, needle: Seq<char>, i: int)
    requires
        0 <= i,
    ensures
        first_index_from(hay, needle, i) matches Some(p) ==> is_first_occurrence(hay, needle, i, p),
        first_index_from(hay, needle, i) is None ==> forall|k: int| i <= k ==> !occurs_at(hay, needle, k),
    decreases hay.len() + 1 - i,
{
    if i > hay.len() {
    } else if occurs_at(hay, needle, i) {
    } else {
        lemma_first_index_from(hay, needle, i + 1);
    }
}

/// An occurrence at `p` with none before it, from `i` on, is what
/// `first_index_from` finds.
pub proof fn lemma_first_index_at(hay: Seq<char>, needle: Seq<char>, i: int, p: int)
    requires
        0 <= i <= p,
        occurs_at(hay, needle, p),
        forall|k: int| i <= k < p ==> !occurs_at(hay, needle, k),
    ensures
        first_index_from(hay, needle, i) == Some(p),
    decreases p - i,
{
    if i < p {
        lemma_first_index_at(hay, needle, i + 1, p);
    }
}

/// A prefix of a text without `p` holds no `p` either.
pub proof fn lemma_no_occurrence_in_prefix(x: Seq<char>, p: Seq<char>, n: int)
    requires
        !contains(x, p),
        0 <= n <= x.len(),
    ensures
        !contains(x.take(n), p),
{
    if contains(x.take(n), p) {
        let k = choose|k: int| occurs_at(x.take(n), p, k);
        assert(x.take(n).subrange(k, k + p.len()) =~= x.subrange(k, k + p.len()));
        assert(occurs_at(x, p, k));
    }
}

/// A suffix of a text without `p` holds no `p` either.
pub proof fn lemma_no_occurrence_in_suffix(x: Seq<char>, p: Seq<char>, n: int)
    requires
        !contains(x, p),
        0 <= n <= x.len(),
    ensures
        !contains(x.skip(n), p),
{
    if contains(x.skip(n), p) {
        let k = choose|k: int| occurs_at(x.skip(n), p, k);
        assert(x.skip(n).subrange(k, k + p.len()) =~= x.subrange(k + n, k + n + p.len()));
        assert(occurs_at(x, p, k + n));
    }
}

/// Position of the first occurrence of `needle` in `hay` (`str::find`).
pub fn find_first(hay: &Vec<char>, needle: &Vec<char>) -> (r: Option<usize>)
    ensures
        r matches Some(i) ==> first_index_from(hay@, needle@, 0) == Some(i as int),
        r is None ==> first_index_from(hay@, needle@, 0) is None,
{
    let mut i: usize = 0;
    while i <= hay.len()
        invariant
            i <= hay@.len() + 1,
            first_index_from(hay@, needle@, 0) == first_index_from(hay@, needle@, i as int),
        decreases hay@.len() + 1 - i,
    {
        if matches_at(hay, needle, i) {
            return Some(i);
        }
        if i == hay.len() {
            assert(first_index_from(hay@, needle@, i + 1) is None);
            return None;
        }
        i = i + 1;
    }
    None
}

/// Whether `needle` is a substring of `hay`.
pub fn contains_chars(hay: &Vec<char>, needle: &Vec<char>) -> (b: bool)
    ensures
        b == contains(hay@, needle@),
{
    match find_from(hay, needle, 0) {
        Some(i) => true,
        None => {
            assert(forall|k: int| !occurs_at(hay@, needle@, k)) by {
                assert(forall|k: int| 0 <= k ==> !occurs_at(hay@, needle@, k));
            }
            false
        },
    }
}

/// Whether `needle` is a substring of `hay`.
pub fn str_contains(hay: &str, needle: &str) -> (b: bool)
    ensures
        b == contains(hay@, needle@),
{
    let h = chars_of(hay);
    let n = chars_of(needle);
    contains_chars(&h, &n)
}

/// Whether `s` begins with `prefix`.
pub fn str_starts_with(s: &str, prefix: &str) -> (b: bool)
    ensures
        b == starts_with(s@, prefix@),
{
    let h = chars_of(s);
    let n = chars_of(prefix);
    matches_at(&h, &n, 0)
}

/// Equality of the characters of two strings.
pub fn str_eq(a: &str, b: &str) -> (r: bool)
    ensures
        r == (a@ == b@),
{
    let x = chars_of(a);
    let y = chars_of(b);
    if x.len() != y.len() {
        return false;
    }
    let r = matches_at(&x, &y, 0);
    assert(r ==> x@.subrange(0, y@.len() as int) == x@);
    assert(x@ == y@ ==> x@.subrange(0, y@.len() as int) =~= y@);
    r
}

/// The first `n` characters of `s` (`s.chars().take(n).collect()`).
pub fn take_str(s: &str, n: usize) -> (r: String)
    ensures
        r@ == take_chars(s@, n as nat),
{
    let v = chars_of(s);
    let end = if n < v.len() {
        n
    } else {
        v.len()
    };
    let r = string_of(&v, 0, end);
    assert(v@.subrange(0, v@.len() as int) == v@);
    r
}

/// The ASCII digit for `d < 10`.
pub fn digit_char(d: u64) -> (c: char)
    requires
        d < 10,
    ensures
        c == digit(d as nat),
{
    if d == 0 {
        '0'
    } else if d == 1 {
        '1'
    } else if d == 2 {
        '2'
    } else if d == 3 {
        '3'
    } else if d == 4 {
        '4'
    } else if d == 5 {
        '5'
    } else if d == 6 {
        '6'
    } else if d == 7 {
        '7'
    } else if d == 8 {
        '8'
    } else {
        '9'
    }
}

/// Appends the decimal notation of `n`.
pub fn push_decimal(out: &mut String, n: u64)
    ensures
        final(out)@ == old(out)@ + decimal(n as nat),
    decreases n,
{
    if n >= 10 {
        push_decimal(out, n / 10);
    }
    string_push(out, digit_char(n % 10));
    if n < 10 {
        assert(decimal(n as nat) == seq![digit(n as nat)]);
    }
}

/// Decimal notation of `n`.
pub fn decimal_string(n: u64) -> (s: String)
    ensures
        s@ == decimal(n as nat),
{
    let mut s = String::new();
    push_decimal(&mut s, n);
    s
}


/// `s` with each carriage return and line feed replaced by a space.
pub open spec fn blank_line_breaks(s: Seq<char>) -> Seq<char> {
    s.map_values(|c: char| if c == '\r' || c == '\n' { ' ' } else { c })
}

/// `s` with carriage returns and line feeds replaced by spaces
/// (`s.replace(['\r', '\n'], " ")`).
pub fn blank_line_breaks_str(s: &str) -> (r: String)
    ensures
        r@ == blank_line_breaks(s@),
{
    let v = chars_of(s);
    let mut out = String::new();
    let mut i: usize = 0;
    while i < v.len()
        invariant
            i <= v@.len(),
            out@ == blank_line_breaks(v@.take(i as int)),
        decreases v@.len() - i,
    {
        let c = v[i];
        if c == '\r' || c == '\n' {
            string_push(&mut out, ' ');
        } else {
            string_push(&mut out, c);
        }
        assert(blank_line_breaks(v@.take(i + 1)) =~= blank_line_breaks(v@.take(i as int)).push(
            if c == '\r' || c == '\n' {
                ' '
            } else {
                c
            },
        ));
        i = i + 1;
    }
    assert(v@.take(v@.len() as int) =~= v@);
    out
}

/// The pieces joined with `sep` between each two.
pub open spec fn join(pieces: Seq<Seq<char>>, sep: Seq<char>) -> Seq<char>
    decreases pieces.len(),
{
    if pieces.len() == 0 {
        seq![]
    } else if pieces.len() == 1 {
        pieces[0]
    } else {
        join(pieces.drop_last(), sep) + sep + pieces.last()
    }
}


/// `s` with each occurrence of `from`, taken left to right without overlap,
/// replaced by `to` (`str::replace` for a non-empty pattern).
pub open spec fn replace_all(s: Seq<char>, from: Seq<char>, to: Seq<char>) -> Seq<char>
    decreases s.len(),
{
    if from.len() == 0 || s.len() < from.len() {
        s
    } else if s.take(from.len() as int) == from {
        to + replace_all(s.skip(from.len() as int), from, to)
    } else {
        seq![s[0]] + replace_all(s.drop_first(), from, to)
    }
}

/// `s` with each occurrence of the non-empty `from` replaced by `to`.
pub fn replace_str(s: &str, from: &str, to: &str) -> (r: String)
    requires
        from@.len() > 0,
    ensures
        r@ == replace_all(s@, from@, to@),
{
    let v = chars_of(s);
    let f = chars_of(from);
    let mut out = String::new();
    let mut i: usize = 0;
    assert(v@.skip(0) =~= v@);
    while i < v.len()
        invariant
            i <= v@.len(),
            f@.len() > 0,
            replace_all(v@, f@, to@) == out@ + replace_all(v@.skip(i as int), f@, to@),
        decreases v@.len() - i,
    {
        let ghost rest = v@.skip(i as int);
        if matches_at(&v, &f, i) {
            assert(rest.take(f@.len() as int) =~= v@.subrange(i as int, i + f@.len()));
            assert(rest.skip(f@.len() as int) =~= v@.skip(i + f@.len()));
            push_str(&mut out, to);
            i = i + f.len();
        } else {
            proof {
                if rest.len() >= f@.len() {
                    assert(rest.take(f@.len() as int) =~= v@.subrange(i as int, i + f@.len()));
                } else {
                    assert(v@.skip(i + 1).len() < f@.len());
                }
            }
            assert(rest.drop_first() =~= v@.skip(i + 1));
            string_push(&mut out, v[i]);
            i = i + 1;
        }
    }
    assert(v@.skip(i as int) =~= Seq::<char>::empty());
    out
}

/// The words of `s` after the partial word `cur`: maximal runs of
/// non-whitespace characters.
pub open spec fn words_after(s: Seq<char>, cur: Seq<char>) -> Seq<Seq<char>>
    decreases s.len(),
{
    if s.len() == 0 {
        if cur.len() > 0 {
            seq![cur]
        } else {
            seq![]
        }
    } else if is_ws(s[0]) {
        (if cur.len() > 0 {
            seq![cur]
        } else {
            seq![]
        }) + words_after(s.drop_first(), seq![])
    } else {
        words_after(s.drop_first(), cur.push(s[0]))
    }
}

/// The words of `s` (`str::split_whitespace`).
pub open spec fn words(s: Seq<char>) -> Seq<Seq<char>> {
    words_after(s, seq![])
}

proof fn lemma_join_push(pieces: Seq<Seq<char>>, sep: Seq<char>, w: Seq<char>)
    ensures
        join(pieces.push(w), sep) == if pieces.len() == 0 {
            w
        } else {
            join(pieces, sep) + sep + w
        },
{
    assert(pieces.push(w).drop_last() =~= pieces);
}

/// The words of `s` joined by single spaces
/// (`s.split_whitespace().collect::<Vec<_>>().join(" ")`).
pub fn collapse_whitespace(s: &str) -> (r: String)
    ensures
        r@ == join(words(s@), " "@),
{
    let v = chars_of(s);
    let mut out = String::new();
    let mut cur = String::new();
    let mut first = true;
    let ghost mut done: Seq<Seq<char>> = seq![];
    let mut i: usize = 0;
    assert(v@.skip(0) =~= v@);
    while i < v.len()
        invariant
            i <= v@.len(),
            words(v@) == done + words_after(v@.skip(i as int), cur@),
            out@ == join(done, " "@),
            first == (done.len() == 0),
        decreases v@.len() - i,
    {
        let ghost rest = v@.skip(i as int);
        assert(rest[0] == v@[i as int]);
        assert(rest.drop_first() =~= v@.skip(i + 1));
        let c = v[i];
        if is_whitespace(c) {
            if !cur.as_str().is_empty() {
                proof {
                    lemma_join_push(done, " "@, cur@);
                    assert(done + (seq![cur@] + words_after(v@.skip(i + 1), seq![])) =~= done.push(
                        cur@,
                    ) + words_after(v@.skip(i + 1), seq![]));
                    done = done.push(cur@);
                }
                if !first {
                    push_str(&mut out, " ");
                }
                push_str(&mut out, cur.as_str());
                first = false;
                cur = String::new();
            } else {
                assert(cur@ =~= Seq::<char>::empty());
                assert(done + (Seq::<Seq<char>>::empty() + words_after(v@.skip(i + 1), seq![]))
                    =~= done + words_after(v@.skip(i + 1), seq![]));
            }
        } else {
            string_push(&mut cur, c);
        }
        i = i + 1;
    }
    assert(v@.skip(i as int).len() == 0);
    if !cur.as_str().is_empty() {
        proof {
            lemma_join_push(done, " "@, cur@);
            done = done.push(cur@);
        }
        if !first {
            push_str(&mut out, " ");
        }
        push_str(&mut out, cur.as_str());
    } else {
        assert(done + Seq::<Seq<char>>::empty() =~= done);
    }
    out
}


/// `s` with each `from` character replaced by `to`.
pub open spec fn replace_char(s: Seq<char>, from: char, to: char) -> Seq<char> {
    s.map_values(|c: char| if c == from { to } else { c })
}

/// `s` with each `from` character replaced by `to` (`str::replace` on a character).
pub fn replace_char_str(s: &str, from: char, to: char) -> (r: String)
    ensures
        r@ == replace_char(s@, from, to),
{
    let v = chars_of(s);
    let mut out = String::new();
    let mut i: usize = 0;
    while i < v.len()
        invariant
            i <= v@.len(),
            out@ == replace_char(v@.take(i as int), from, to),
        decreases v@.len() - i,
    {
        let c = v[i];
        let d = if c == from {
            to
        } else {
            c
        };
        string_push(&mut out, d);
        assert(replace_char(v@.take(i + 1), from, to) =~= replace_char(v@.take(i as int), from, to).push(d));
        i = i + 1;
    }
    assert(v@.take(v@.len() as int) =~= v@);
    out
}

/// `s` without its leading `c` characters (`str::trim_start_matches` on a character).
pub open spec fn trim_start_char(s: Seq<char>, c: char) -> Seq<char>
    decreases s.len(),
{
    if s.len() > 0 && s[0] == c {
        trim_start_char(s.drop_first(), c)
    } else {
        s
    }
}

/// `s` without its leading `c` characters.
pub fn trim_start_char_str(s: &str, c: char) -> (r: String)
    ensures
        r@ == trim_start_char(s@, c),
{
    let v = chars_of(s);
    let n = v.len();
    let mut i: usize = 0;
    assert(v@.subrange(0, n as int) =~= v@);
    while i < n && v[i] == c
        invariant
            i <= n == v@.len(),
            trim_start_char(v@, c) == trim_start_char(v@.subrange(i as int, n as int), c),
        decreases n - i,
    {
        assert(v@.subrange(i as int, n as int).drop_first() =~= v@.subrange(i + 1, n as int));
        i = i + 1;
    }
    string_of(&v, i, n)
}

/// `s` without its trailing `c` characters (`str::trim_end_matches` on a character).
pub open spec fn trim_end_char(s: Seq<char>, c: char) -> Seq<char>
    decreases s.len(),
{
    if s.len() > 0 && s.last() == c {
        trim_end_char(s.drop_last(), c)
    } else {
        s
    }
}

/// `s` without its trailing `c` characters.
pub fn trim_end_char_str(s: &str, c: char) -> (r: String)
    ensures
        r@ == trim_end_char(s@, c),
{
    let v = chars_of(s);
    let mut j: usize = v.len();
    assert(v@.subrange(0, j as int) =~= v@);
    while j > 0 && v[j - 1] == c
        invariant
            j <= v@.len(),
            trim_end_char(v@, c) == trim_end_char(v@.subrange(0, j as int), c),
        decreases j,
    {
        assert(v@.subrange(0, j as int).drop_last() =~= v@.subrange(0, j - 1));
        j = j - 1;
    }
    string_of(&v, 0, j)
}

/// The ASCII lowercase of a character (other characters are kept).
pub open spec fn ascii_lower(c: char) -> char {
    if 'A' <= c && c <= 'Z' {
        ((c as u32) + 32) as char
    } else {
        c
    }
}

/// The two texts are equal when ASCII letters are compared without case
/// (`str::eq_ignore_ascii_case`).
pub open spec fn eq_ignore_ascii_case(a: Seq<char>, b: Seq<char>) -> bool {
    &&& a.len() == b.len()
    &&& forall|i: int| 0 <= i < a.len() ==> ascii_lower(a[i]) == ascii_lower(b[i])
}

fn ascii_lower_char(c: char) -> (r: char)
    ensures
        r == ascii_lower(c),
{
    if 'A' <= c && c <= 'Z' {
        let code = (c as u32) + 32;
        assert(code <= 0x7f);
        char_from_ascii(code)
    } else {
        c
    }
}

fn char_from_ascii(code: u32) -> (c: char)
    requires
        code <= 0x7f,
    ensures
        c == code as char,
{
    (code as u8) as char
}

/// Whether the texts are equal when ASCII letters are compared without case.
pub fn str_eq_ignore_ascii_case(a: &str, b: &str) -> (r: bool)
    ensures
        r == eq_ignore_ascii_case(a@, b@),
{
    let x = chars_of(a);
    let y = chars_of(b);
    if x.len() != y.len() {
        return false;
    }
    let mut i: usize = 0;
    while i < x.len()
        invariant
            x@ == a@,
            y@ == b@,
            i <= x@.len() == y@.len(),
            forall|k: int| 0 <= k < i ==> ascii_lower(x@[k]) == ascii_lower(y@[k]),
        decreases x@.len() - i,
    {
        if ascii_lower_char(x[i]) != ascii_lower_char(y[i]) {
            assert(ascii_lower(a@[i as int]) != ascii_lower(b@[i as int]));
            assert(!eq_ignore_ascii_case(a@, b@));
            return false;
        }
        i = i + 1;
    }
    true
}

/// What follows the first `c` of `s`, if there is one (`str::split_once` on a
/// character, second half).
pub open spec fn after_char(s: Seq<char>, c: char) -> Option<Seq<char>>
    decreases s.len(),
{
    if s.len() == 0 {
        None
    } else if s[0] == c {
        Some(s.drop_first())
    } else {
        after_char(s.drop_first(), c)
    }
}

/// What follows the first `c` of `s`, if there is one.
pub fn after_char_str(s: &str, c: char) -> (r: Option<String>)
    ensures
        r matches Some(t) ==> after_char(s@, c) == Some(t@),
        r is None ==> after_char(s@, c) is None,
{
    let v = chars_of(s);
    let n = v.len();
    let mut i: usize = 0;
    assert(v@.subrange(0, n as int) =~= v@);
    while i < n
        invariant
            v@ == s@,
            i <= n == v@.len(),
            after_char(v@, c) == after_char(v@.subrange(i as int, n as int), c),
        decreases n - i,
    {
        assert(v@.subrange(i as int, n as int).drop_first() =~= v@.subrange(i + 1, n as int));
        if v[i] == c {
            assert(v@.subrange(i as int, n as int)[0] == v@[i as int]);
            assert(after_char(v@.subrange(i as int, n as int), c) == Some(v@.subrange(i + 1, n as int)));
            let t = string_of(&v, i + 1, n);
            assert(after_char(s@, c) == Some(t@));
            return Some(t);
        }
        i = i + 1;
    }
    None
}

/// The path separators `/` and `\`.
pub open spec fn is_path_sep(c: char) -> bool {
    c == '/' || c == '\\'
}

/// What follows the last separator of `s`, or all of it
/// (`s.rsplit(['/', '\\']).next()`).
pub open spec fn last_segment(s: Seq<char>) -> Seq<char>
    decreases s.len(),
{
    if s.len() == 0 {
        s
    } else if is_path_sep(s.last()) {
        seq![]
    } else {
        last_segment(s.drop_last()).push(s.last())
    }
}

/// What follows the last separator of `s`, or all of it.
pub fn last_segment_str(s: &str) -> (r: String)
    ensures
        r@ == last_segment(s@),
{
    let v = chars_of(s);
    let n = v.len();
    let mut j: usize = n;
    assert(v@.subrange(0, n as int) =~= v@);
    assert(v@ + v@.subrange(n as int, n as int) =~= v@);
    while j > 0 && !(v[j - 1] == '/' || v[j - 1] == '\\')
        invariant
            j <= n == v@.len(),
            last_segment(v@) == last_segment(v@.subrange(0, j as int)) + v@.subrange(j as int, n as int),
        decreases j,
    {
        let ghost pre = v@.subrange(0, j as int);
        assert(pre.drop_last() =~= v@.subrange(0, j - 1));
        assert(v@.subrange(j - 1, n as int) =~= seq![pre.last()] + v@.subrange(j as int, n as int));
        assert(last_segment(pre) == last_segment(v@.subrange(0, j - 1)).push(pre.last()));
        assert(last_segment(v@.subrange(0, j - 1)).push(pre.last()) + v@.subrange(j as int, n as int)
            =~= last_segment(v@.subrange(0, j - 1)) + v@.subrange(j - 1, n as int));
        j = j - 1;
    }
    assert(v@.subrange(0, n as int) =~= v@);
    assert(last_segment(v@.subrange(0, j as int)) =~= Seq::<char>::empty()) by {
        if j > 0 {
        }
    }
    assert(Seq::<char>::empty() + v@.subrange(j as int, n as int) =~= v@.subrange(j as int, n as int));
    string_of(&v, j, n)
}

/// The text cut to `max` characters, marked as cut when it was longer.
pub open spec fn spec_trim_text(text: Seq<char>, max: nat) -> Seq<char> {
    if text.len() <= max {
        text
    } else {
        text.take(max as int) + "\n...(已截断)"@
    }
}

/// The text cut to `max_chars` characters, marked as cut when it was longer.
pub fn trim_text(text: &str, max_chars: usize) -> (r: String)
    ensures
        r@ == spec_trim_text(text@, max_chars as nat),
{
    let v = chars_of(text);
    if v.len() <= max_chars {
        return string_of(&v, 0, v.len());
    }
    let mut r = string_of(&v, 0, max_chars);
    push_str(&mut r, "\n...(已截断)");
    r
}


/// The strings joined with `sep` between each two (`[String]::join`).
pub fn join_strings(v: &Vec<String>, sep: &str) -> (r: String)
    ensures
        r@ == join(strings_view(v@), sep@),
{
    let ghost all = strings_view(v@);
    let mut out = String::new();
    let mut i: usize = 0;
    while i < v.len()
        invariant
            all == strings_view(v@),
            i <= v@.len(),
            out@ == join(all.take(i as int), sep@),
        decreases v@.len() - i,
    {
        assert(all.take(i + 1).drop_last() =~= all.take(i as int));
        assert(all.take(i + 1).last() == v@[i as int]@);
        if i > 0 {
            push_str(&mut out, sep);
        } else {
            assert(out@ =~= Seq::<char>::empty());
        }
        push_str(&mut out, v[i].as_str());
        i = i + 1;
    }
    assert(all.take(v@.len() as int) =~= all);
    out
}

} // verus!
