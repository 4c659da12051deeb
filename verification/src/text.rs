//! Character-level string helpers shared by the rest of the library.
//!
//! Strings are reasoned about through their views as sequences of `char`.

use vstd::prelude::*;
use vstd::std_specs::iter::IteratorSpec;

verus! {

/// `s` starts with `p`.
pub open spec fn has_prefix(s: Seq<char>, p: Seq<char>) -> bool {
    p.len() <= s.len() && s.subrange(0, p.len() as int) == p
}

/// `s` ends with `p`.
pub open spec fn has_suffix(s: Seq<char>, p: Seq<char>) -> bool {
    p.len() <= s.len() && s.subrange(s.len() - p.len(), s.len() as int) == p
}

/// `n` occurs in `s` starting at index `i`.
pub open spec fn occurs_at(s: Seq<char>, n: Seq<char>, i: int) -> bool {
    0 <= i && i + n.len() <= s.len() && s.subrange(i, i + n.len()) == n
}

/// `n` occurs somewhere in `s`.
pub open spec fn contains_seq(s: Seq<char>, n: Seq<char>) -> bool {
    exists|i: int| occurs_at(s, n, i)
}

/// `c` occurs in `s`.
pub open spec fn has_char(s: Seq<char>, c: char) -> bool {
    exists|i: int| 0 <= i < s.len() && s[i] == c
}

/// The characters of `s`.
pub fn chars_of(s: &str) -> (v: Vec<char>)
    ensures
        v@ == s@,
{
    broadcast use vstd::string::group_string_axioms;
    let mut v: Vec<char> = Vec::new();
    let mut it = s.chars();
    assert(it.remaining() == s@);
    loop
        invariant
            v@ + it.remaining() == s@,
            it.obeys_prophetic_iter_laws(),
            it.decrease() is Some,
        ensures
            v@ == s@,
        decreases it.decrease()->0,
    {
        let ghost prev = it;
        match it.next() {
            Some(c) => {
                assert(prev.remaining().len() > 0);
                v.push(c);
                assert(v@ + it.remaining() =~= s@);
            },
            None => {
                assert(it.remaining().len() == 0);
                assert(v@ =~= s@);
                break;
            },
        }
    }
    v
}

/// `String::push`: appends one character.
#[verifier::external_body]
pub(crate) fn string_push(s: &mut String, c: char)
    ensures
        final(s)@ == old(s)@.push(c),
{
    s.push(c);
}

/// `String::push_str`: appends a string slice.
#[verifier::external_body]
pub(crate) fn string_push_str(s: &mut String, t: &str)
    ensures
        final(s)@ == old(s)@ + t@,
{
    s.push_str(t);
}

/// A `String` holding exactly the characters of `v[from..to]`.
pub fn string_from_range(v: &Vec<char>, from: usize, to: usize) -> (r: String)
    requires
        from <= to <= v.len(),
    ensures
        r@ == v@.subrange(from as int, to as int),
{
    let mut r = String::new();
    let mut i = from;
    while i < to
        invariant
            from <= i <= to <= v.len(),
            r@ == v@.subrange(from as int, i as int),
        decreases to - i,
    {
        string_push(&mut r, v[i]);
        i = i + 1;
        assert(r@ =~= v@.subrange(from as int, i as int));
    }
    r
}

/// A `String` holding exactly the characters of `v`.
pub fn string_from_chars(v: &Vec<char>) -> (r: String)
    ensures
        r@ == v@,
{
    let r = string_from_range(v, 0, v.len());
    assert(v@.subrange(0, v@.len() as int) =~= v@);
    r
}

/// Whether `n` occurs in `s` at index `i`.
pub fn occurs_at_exec(s: &Vec<char>, n: &Vec<char>, i: usize) -> (b: bool)
    ensures
        b == occurs_at(s@, n@, i as int),
{
    if i > s.len() || n.len() > s.len() - i {
        return false;
    }
    let mut k: usize = 0;
    while k < n.len()
        invariant
            i + n.len() <= s.len(),
            k <= n.len(),
            forall|j: int| 0 <= j < k ==> s@[i + j] == n@[j],
        decreases n.len() - k,
    {
        if s[i + k] != n[k] {
            assert(s@.subrange(i as int, i + n.len())[k as int] != n@[k as int]);
            return false;
        }
        k = k + 1;
    }
    assert(s@.subrange(i as int, i + n.len()) =~= n@);
    true
}

/// The first index at or after `from` where `n` occurs in `s`.
pub fn find_from(s: &Vec<char>, n: &Vec<char>, from: usize) -> (r: Option<usize>)
    ensures
        match r {
            Some(i) => from <= i && occurs_at(s@, n@, i as int)
                && forall|j: int| from <= j < i ==> !occurs_at(s@, n@, j),
            None => forall|j: int| from <= j ==> !occurs_at(s@, n@, j),
        },
{
    let mut i = from;
    while i < s.len()
        invariant
            from <= i,
            forall|j: int| from <= j < i ==> !occurs_at(s@, n@, j),
        decreases s.len() - i,
    {
        if occurs_at_exec(s, n, i) {
            return Some(i);
        }
        i = i + 1;
    }
    if i == s.len() && occurs_at_exec(s, n, i) {
        return Some(i);
    }
    assert forall|j: int| from <= j implies !occurs_at(s@, n@, j) by {
        if j < i {
        }
    }
    None
}

/// Whether `n` occurs anywhere in `s`.
pub fn contains_exec(s: &Vec<char>, n: &Vec<char>) -> (b: bool)
    ensures
        b == contains_seq(s@, n@),
{
    match find_from(s, n, 0) {
        Some(_) => true,
        None => false,
    }
}

/// Whether `c` occurs in `s`.
pub fn has_char_exec(s: &Vec<char>, c: char) -> (b: bool)
    ensures
        b == has_char(s@, c),
{
    let mut i: usize = 0;
    while i < s.len()
        invariant
            i <= s.len(),
            forall|j: int| 0 <= j < i ==> s@[j] != c,
        decreases s.len() - i,
    {
        if s[i] == c {
            return true;
        }
        i = i + 1;
    }
    false
}

/// Whether two strings hold the same characters.
pub fn str_eq(a: &str, b: &str) -> (r: bool)
    ensures
        r == (a@ == b@),
{
    let va = chars_of(a);
    let vb = chars_of(b);
    if va.len() != vb.len() {
        return false;
    }
    let mut i: usize = 0;
    while i < va.len()
        invariant
            va.len() == vb.len(),
            va@ == a@,
            vb@ == b@,
            i <= va.len(),
            forall|j: int| 0 <= j < i ==> va@[j] == vb@[j],
        decreases va.len() - i,
    {
        if va[i] != vb[i] {
            assert(a@[i as int] != b@[i as int]);
            return false;
        }
        i = i + 1;
    }
    assert(va@ =~= vb@);
    true
}

// ---------------------------------------------------------------------------
// Whitespace and trimming
// ---------------------------------------------------------------------------

/// The Unicode `White_Space` property, as `char::is_whitespace` uses it.
pub open spec fn is_ws(c: char) -> bool {
    ||| ('\u{9}' <= c && c <= '\u{d}')
    ||| c == ' '
    ||| c == '\u{85}'
    ||| c == '\u{a0}'
    ||| c == '\u{1680}'
    ||| ('\u{2000}' <= c && c <= '\u{200a}')
    ||| c == '\u{2028}'
    ||| c == '\u{2029}'
    ||| c == '\u{202f}'
    ||| c == '\u{205f}'
    ||| c == '\u{3000}'
}

/// Whether `c` is Unicode whitespace.
pub fn is_whitespace(c: char) -> (b: bool)
    ensures
        b == is_ws(c),
{
    ('\u{9}' <= c && c <= '\u{d}') || c == ' ' || c == '\u{85}' || c == '\u{a0}' || c == '\u{1680}'
        || ('\u{2000}' <= c && c <= '\u{200a}') || c == '\u{2028}' || c == '\u{2029}'
        || c == '\u{202f}' || c == '\u{205f}' || c == '\u{3000}'
}

/// `s` without its leading whitespace.
pub open spec fn trim_start_seq(s: Seq<char>) -> Seq<char>
    decreases s.len(),
{
    if s.len() > 0 && is_ws(s[0]) {
        trim_start_seq(s.drop_first())
    } else {
        s
    }
}

/// `s` without its trailing whitespace.
pub open spec fn trim_end_seq(s: Seq<char>) -> Seq<char>
    decreases s.len(),
{
    if s.len() > 0 && is_ws(s.last()) {
        trim_end_seq(s.drop_last())
    } else {
        s
    }
}

/// `s` without leading and trailing whitespace, as `str::trim` gives it.
pub open spec fn trim_seq(s: Seq<char>) -> Seq<char> {
    trim_end_seq(trim_start_seq(s))
}

/// Index of the first character of `v` at or after `from` that is not whitespace.
pub(crate) fn skip_ws_forward(v: &Vec<char>, from: usize) -> (i: usize)
    requires
        from <= v.len(),
    ensures
        from <= i <= v.len(),
        trim_start_seq(v@.subrange(from as int, v@.len() as int)) == v@.subrange(i as int, v@.len() as int),
{
    let mut i = from;
    while i < v.len() && is_whitespace(v[i])
        invariant
            from <= i <= v.len(),
            trim_start_seq(v@.subrange(from as int, v@.len() as int)) == trim_start_seq(v@.subrange(i as int, v@.len() as int)),
        decreases v.len() - i,
    {
        assert(v@.subrange(i as int, v@.len() as int).drop_first() =~= v@.subrange(i + 1, v@.len() as int));
        i = i + 1;
    }
    if i < v.len() {
        assert(v@.subrange(i as int, v@.len() as int)[0] == v@[i as int]);
    }
    i
}

/// Index just past the last character of `v[from..to]` that is not whitespace.
pub(crate) fn skip_ws_backward(v: &Vec<char>, from: usize, to: usize) -> (j: usize)
    requires
        from <= to <= v.len(),
    ensures
        from <= j <= to,
        trim_end_seq(v@.subrange(from as int, to as int)) == v@.subrange(from as int, j as int),
{
    let mut j = to;
    while j > from && is_whitespace(v[j - 1])
        invariant
            from <= j <= to <= v.len(),
            trim_end_seq(v@.subrange(from as int, to as int)) == trim_end_seq(v@.subrange(from as int, j as int)),
        decreases j - from,
    {
        assert(v@.subrange(from as int, j as int).drop_last() =~= v@.subrange(from as int, j - 1));
        j = j - 1;
    }
    if j > from {
        assert(v@.subrange(from as int, j as int).last() == v@[j - 1]);
    }
    j
}

/// `s` without leading and trailing whitespace.
pub fn trim(s: &str) -> (r: String)
    ensures
        r@ == trim_seq(s@),
{
    let v = chars_of(s);
    let i = skip_ws_forward(&v, 0);
    let j = skip_ws_backward(&v, i, v.len());
    assert(v@.subrange(0, v@.len() as int) =~= v@);
    string_from_range(&v, i, j)
}

// ---------------------------------------------------------------------------
// Case folding
// ---------------------------------------------------------------------------

/// What `str::to_lowercase` gives for a string: the Unicode lower-case mapping
/// of each character, with the final-sigma rule.
pub uninterp spec fn lowercase(s: Seq<char>) -> Seq<char>;

/// `str::to_lowercase`.
#[verifier::external_body]
pub(crate) fn to_lowercase(s: &str) -> (r: String)
    ensures
        r@ == lowercase(s@),
{
    s.to_lowercase()
}

// ---------------------------------------------------------------------------
// Decimal numbers
// ---------------------------------------------------------------------------

pub open spec fn is_digit(c: char) -> bool {
    '0' <= c && c <= '9'
}

pub open spec fn all_digits(s: Seq<char>) -> bool {
    forall|i: int| 0 <= i < s.len() ==> is_digit(#[trigger] s[i])
}

pub open spec fn digit_value(c: char) -> nat {
    (c as int - '0' as int) as nat
}

/// The number written by the decimal digits `s`.
pub open spec fn decimal_value(s: Seq<char>) -> nat
    decreases s.len(),
{
    if s.len() == 0 {
        0
    } else {
        decimal_value(s.drop_last()) * 10 + digit_value(s.last())
    }
}

/// The digits of an unsigned number as `str::parse` reads them: one leading
/// `+` is allowed.
pub open spec fn unsigned_digits(s: Seq<char>) -> Seq<char> {
    if s.len() > 0 && s[0] == '+' {
        s.drop_first()
    } else {
        s
    }
}

/// What `str::parse::<u32>` gives.
pub open spec fn parse_u32_spec(s: Seq<char>) -> Option<u32> {
    let d = unsigned_digits(s);
    if d.len() > 0 && all_digits(d) && decimal_value(d) <= u32::MAX {
        Some(decimal_value(d) as u32)
    } else {
        None
    }
}

proof fn lemma_decimal_prefix_le(s: Seq<char>, k: int)
    requires
        0 <= k <= s.len(),
        all_digits(s),
    ensures
        decimal_value(s.subrange(0, k)) <= decimal_value(s),
    decreases s.len() - k,
{
    if k < s.len() {
        let t = s.subrange(0, k + 1);
        assert(t.drop_last() =~= s.subrange(0, k));
        assert(all_digits(s.subrange(0, k + 1)));
        lemma_decimal_prefix_le_step(t);
        lemma_decimal_prefix_le(s, k + 1);
    } else {
        assert(s.subrange(0, k) =~= s);
    }
}

proof fn lemma_decimal_prefix_le_step(t: Seq<char>)
    requires
        t.len() > 0,
    ensures
        decimal_value(t.drop_last()) <= decimal_value(t),
{
}

/// Reads `v[from..to]` as an unsigned 32-bit number the way `str::parse` does.
pub fn parse_u32_range(v: &Vec<char>, from: usize, to: usize) -> (r: Option<u32>)
    requires
        from <= to <= v.len(),
    ensures
        r == parse_u32_spec(v@.subrange(from as int, to as int)),
{
    let ghost s = v@.subrange(from as int, to as int);
    let mut start = from;
    if start < to && v[start] == '+' {
        start = start + 1;
    }
    let ghost d = v@.subrange(start as int, to as int);
    assert(d =~= unsigned_digits(s));
    if start >= to {
        return None;
    }
    let mut acc: u64 = 0;
    let mut k = start;
    while k < to
        invariant
            from <= start <= k <= to <= v.len(),
            d == v@.subrange(start as int, to as int),
            d == unsigned_digits(s),
            s == v@.subrange(from as int, to as int),
            start < to,
            forall|i: int| start <= i < k ==> is_digit(#[trigger] v@[i]),
            acc == decimal_value(v@.subrange(start as int, k as int)),
            acc <= u32::MAX,
        decreases to - k,
    {
        let c = v[k];
        if !('0' <= c && c <= '9') {
            assert(d[k - start] == c);
            return None;
        }
        let dv = (c as u32 - '0' as u32) as u64;
        assert(v@.subrange(start as int, k + 1).drop_last() =~= v@.subrange(start as int, k as int));
        acc = acc * 10 + dv;
        k = k + 1;
        assert(v@.subrange(start as int, k as int).last() == c);
        if acc > 0xFFFF_FFFF {
            proof {
                if all_digits(d) {
                    assert(d.subrange(0, k - start) =~= v@.subrange(start as int, k as int));
                    lemma_decimal_prefix_le(d, k - start);
                }
            }
            return None;
        }
    }
    assert(d =~= v@.subrange(start as int, k as int));
    Some(acc as u32)
}

// ---------------------------------------------------------------------------
// Writing numbers
// ---------------------------------------------------------------------------

pub open spec fn digit_char(d: nat) -> char {
    ('0' as u32 + d) as char
}

/// The decimal digits of `n`, most significant first.
pub open spec fn decimal_string(n: nat) -> Seq<char>
    decreases n,
{
    if n < 10 {
        seq![digit_char(n)]
    } else {
        decimal_string(n / 10).push(digit_char(n % 10))
    }
}

/// The decimal representation of `n`.
pub fn u128_to_decimal(n: u128) -> (r: String)
    ensures
        r@ == decimal_string(n as nat),
{
    let mut digits: Vec<char> = Vec::new();
    let mut m = n;
    // digits holds the low-order digits of n, least significant first.
    while m >= 10
        invariant
            decimal_string(n as nat) == decimal_string(m as nat) + digits@.reverse(),
        decreases m,
    {
        let d = (m % 10) as u32;
        let c = char_from_digit(d);
        assert(decimal_string(m as nat) == decimal_string((m / 10) as nat).push(c));
        digits.push(c);
        assert(digits@.reverse() =~= seq![c] + digits@.drop_last().reverse());
        m = m / 10;
        assert(decimal_string(n as nat) =~= decimal_string(m as nat) + digits@.reverse());
    }
    let mut r = String::new();
    string_push(&mut r, char_from_digit(m as u32));
    assert(r@ =~= decimal_string(m as nat));
    let mut i = digits.len();
    while i > 0
        invariant
            i <= digits@.len(),
            decimal_string(n as nat) == decimal_string(m as nat) + digits@.reverse(),
            r@ == decimal_string(m as nat) + digits@.reverse().subrange(0, (digits@.len() - i) as int),
        decreases i,
    {
        i = i - 1;
        string_push(&mut r, digits[i]);
        assert(digits@.reverse()[(digits@.len() - i - 1) as int] == digits@[i as int]);
        assert(r@ =~= decimal_string(m as nat) + digits@.reverse().subrange(0, (digits@.len() - i) as int));
    }
    assert(digits@.reverse().subrange(0, digits@.len() as int) =~= digits@.reverse());
    r
}

pub(crate) fn char_from_digit(d: u32) -> (c: char)
    requires
        d < 10,
    ensures
        c == digit_char(d as nat),
{
    if d == 0 { '0' } else if d == 1 { '1' } else if d == 2 { '2' } else if d == 3 { '3' }
    else if d == 4 { '4' } else if d == 5 { '5' } else if d == 6 { '6' } else if d == 7 { '7' }
    else if d == 8 { '8' } else { '9' }
}

// ---------------------------------------------------------------------------
// Splitting and joining
// ---------------------------------------------------------------------------

/// Index of the first `c` in `s` at or after `from`, or `s.len()` if none.
pub open spec fn index_of_from(s: Seq<char>, c: char, from: int) -> int
    decreases s.len() - from,
{
    if from >= s.len() {
        s.len() as int
    } else if s[from] == c {
        from
    } else {
        index_of_from(s, c, from + 1)
    }
}

pub proof fn lemma_index_of_bounds(s: Seq<char>, c: char, from: int)
    requires
        0 <= from <= s.len(),
    ensures
        from <= index_of_from(s, c, from) <= s.len(),
        index_of_from(s, c, from) < s.len() ==> s[index_of_from(s, c, from)] == c,
        forall|j: int| from <= j < index_of_from(s, c, from) ==> s[j] != c,
    decreases s.len() - from,
{
    if from < s.len() && s[from] != c {
        lemma_index_of_bounds(s, c, from + 1);
    }
}

/// The pieces of `s` between occurrences of `c`, as `str::split` gives them:
/// `k` separators make `k + 1` pieces, some possibly empty.
pub open spec fn split_seq(s: Seq<char>, c: char) -> Seq<Seq<char>>
    decreases s.len(),
{
    let i = index_of_from(s, c, 0);
    if i >= s.len() {
        seq![s]
    } else {
        proof {
            lemma_index_of_bounds(s, c, 0);
        }
        seq![s.subrange(0, i)] + split_seq(s.subrange(i + 1, s.len() as int), c)
    }
}

/// The text before the first `c` (all of `s` if there is none).
pub open spec fn before_first(s: Seq<char>, c: char) -> Seq<char> {
    s.subrange(0, index_of_from(s, c, 0))
}

/// The text after the first `c`, if there is one, as `str::split_once` gives it.
pub open spec fn after_first(s: Seq<char>, c: char) -> Option<Seq<char>> {
    let i = index_of_from(s, c, 0);
    if i < s.len() {
        Some(s.subrange(i + 1, s.len() as int))
    } else {
        None
    }
}

/// `parts` joined with `sep` between consecutive parts.
pub open spec fn join_seq(parts: Seq<Seq<char>>, sep: Seq<char>) -> Seq<char>
    decreases parts.len(),
{
    if parts.len() == 0 {
        Seq::empty()
    } else if parts.len() == 1 {
        parts[0]
    } else {
        join_seq(parts.drop_last(), sep) + sep + parts.last()
    }
}

/// Index of the first `c` in `v` at or after `from`, or `v.len()`.
pub fn index_of(v: &Vec<char>, c: char, from: usize) -> (r: usize)
    requires
        from <= v.len(),
    ensures
        r == index_of_from(v@, c, from as int),
        from <= r <= v.len(),
{
    proof {
        lemma_index_of_bounds(v@, c, from as int);
    }
    let mut i = from;
    while i < v.len() && v[i] != c
        invariant
            from <= i <= v.len(),
            index_of_from(v@, c, from as int) == index_of_from(v@, c, i as int),
        decreases v.len() - i,
    {
        i = i + 1;
    }
    i
}

/// The characters of `v[from..to]`.
pub fn sub_chars(v: &Vec<char>, from: usize, to: usize) -> (r: Vec<char>)
    requires
        from <= to <= v.len(),
    ensures
        r@ == v@.subrange(from as int, to as int),
{
    let mut r: Vec<char> = Vec::new();
    let mut i = from;
    while i < to
        invariant
            from <= i <= to <= v.len(),
            r@ == v@.subrange(from as int, i as int),
        decreases to - i,
    {
        r.push(v[i]);
        i = i + 1;
        assert(r@ =~= v@.subrange(from as int, i as int));
    }
    r
}

proof fn lemma_split_step(s: Seq<char>, c: char, from: int)
    requires
        0 <= from <= s.len(),
    ensures
        ({
            let t = s.subrange(from, s.len() as int);
            let i = index_of_from(s, c, from);
            &&& index_of_from(t, c, 0) == i - from
            &&& i < s.len() ==> split_seq(t, c) == seq![s.subrange(from, i)] + split_seq(s.subrange(i + 1, s.len() as int), c)
            &&& i >= s.len() ==> split_seq(t, c) == seq![t]
        }),
{
    let t = s.subrange(from, s.len() as int);
    lemma_index_shift(s, c, from, from);
    lemma_index_of_bounds(s, c, from);
    let i = index_of_from(s, c, from);
    if i < s.len() {
        assert(t.subrange(0, i - from) =~= s.subrange(from, i));
        assert(t.subrange(i - from + 1, t.len() as int) =~= s.subrange(i + 1, s.len() as int));
    }
}

proof fn lemma_index_shift(s: Seq<char>, c: char, from: int, k: int)
    requires
        0 <= from <= k <= s.len(),
    ensures
        index_of_from(s.subrange(from, s.len() as int), c, k - from) == index_of_from(s, c, k) - from,
    decreases s.len() - k,
{
    let t = s.subrange(from, s.len() as int);
    if k < s.len() && s[k] != c {
        assert(t[k - from] == s[k]);
        lemma_index_shift(s, c, from, k + 1);
    } else if k < s.len() {
        assert(t[k - from] == s[k]);
    }
}

/// The pieces of `v` between occurrences of `c`.
pub fn split_chars(v: &Vec<char>, c: char) -> (r: Vec<Vec<char>>)
    ensures
        r@.map_values(|p: Vec<char>| p@) == split_seq(v@, c),
{
    let mut r: Vec<Vec<char>> = Vec::new();
    let mut from: usize = 0;
    assert(v@.subrange(0, v@.len() as int) =~= v@);
    loop
        invariant
            from <= v.len(),
            r@.map_values(|p: Vec<char>| p@) + split_seq(v@.subrange(from as int, v@.len() as int), c) == split_seq(v@, c),
        decreases v.len() - from,
    {
        let i = index_of(v, c, from);
        proof {
            lemma_split_step(v@, c, from as int);
        }
        let piece = sub_chars(v, from, i);
        let ghost before = r@.map_values(|p: Vec<char>| p@);
        r.push(piece);
        assert(r@.map_values(|p: Vec<char>| p@) =~= before.push(piece@));
        if i >= v.len() {
            assert(r@.map_values(|p: Vec<char>| p@) =~= split_seq(v@, c));
            return r;
        }
        from = i + 1;
    }
}

/// `parts` joined with `sep`.
pub fn join_chars(parts: &Vec<Vec<char>>, sep: char) -> (r: String)
    ensures
        r@ == join_seq(parts@.map_values(|p: Vec<char>| p@), seq![sep]),
{
    let mut out = String::new();
    let ghost ps = parts@.map_values(|p: Vec<char>| p@);
    let mut i: usize = 0;
    while i < parts.len()
        invariant
            i <= parts@.len(),
            ps == parts@.map_values(|p: Vec<char>| p@),
            out@ == join_seq(ps.subrange(0, i as int), seq![sep]),
        decreases parts.len() - i,
    {
        if i > 0 {
            string_push(&mut out, sep);
        }
        let ghost mid = out@;
        let mut k: usize = 0;
        while k < parts[i].len()
            invariant
                i < parts@.len(),
                k <= parts@[i as int]@.len(),
                out@ == mid + parts@[i as int]@.subrange(0, k as int),
            decreases parts[i as int]@.len() - k,
        {
            string_push(&mut out, parts[i][k]);
            k = k + 1;
            assert(out@ =~= mid + parts@[i as int]@.subrange(0, k as int));
        }
        assert(parts@[i as int]@.subrange(0, k as int) =~= parts@[i as int]@);
        assert(ps.subrange(0, i + 1).drop_last() =~= ps.subrange(0, i as int));
        assert(ps.subrange(0, i + 1).last() == ps[i as int]);
        if i == 0 {
            assert(out@ =~= join_seq(ps.subrange(0, 1), seq![sep]));
        }
        i = i + 1;
    }
    assert(ps.subrange(0, parts@.len() as int) =~= ps);
    out
}

// ---------------------------------------------------------------------------
// Searching sequences
// ---------------------------------------------------------------------------

/// An optional index, as a mathematical integer.
pub open spec fn opt_index(o: Option<usize>) -> Option<int> {
    match o {
        Some(i) => Some(i as int),
        None => None,
    }
}

/// Index of the first element of `s` that satisfies `f`.
pub open spec fn first_index<T>(s: Seq<T>, f: spec_fn(T) -> bool) -> Option<int>
    decreases s.len(),
{
    if s.len() == 0 {
        None
    } else {
        match first_index(s.drop_last(), f) {
            Some(i) => Some(i),
            None => if f(s.last()) { Some(s.len() - 1) } else { None },
        }
    }
}

pub proof fn lemma_first_index_push<T>(s: Seq<T>, f: spec_fn(T) -> bool, i: int)
    requires
        0 <= i < s.len(),
    ensures
        first_index(s.subrange(0, i + 1), f) == match first_index(s.subrange(0, i), f) {
            Some(k) => Some(k),
            None => if f(s[i]) { Some(i) } else { None },
        },
{
    assert(s.subrange(0, i + 1).drop_last() =~= s.subrange(0, i));
}

pub proof fn lemma_first_index_bounds<T>(s: Seq<T>, f: spec_fn(T) -> bool)
    ensures
        match first_index(s, f) {
            Some(i) => 0 <= i < s.len() && f(s[i]),
            None => true,
        },
    decreases s.len(),
{
    if s.len() > 0 {
        lemma_first_index_bounds(s.drop_last(), f);
    }
}

/// The first index satisfying a predicate, stated element by element.
pub proof fn lemma_first_index_exact<T>(s: Seq<T>, f: spec_fn(T) -> bool)
    ensures
        match first_index(s, f) {
            Some(i) => 0 <= i < s.len() && f(s[i]) && forall|k: int| 0 <= k < i ==> !f(#[trigger] s[k]),
            None => forall|k: int| 0 <= k < s.len() ==> !f(#[trigger] s[k]),
        },
    decreases s.len(),
{
    if s.len() > 0 {
        let d = s.drop_last();
        lemma_first_index_exact(d, f);
        assert forall|k: int| 0 <= k < d.len() implies #[trigger] s[k] == d[k] by {}
    }
}

pub proof fn lemma_first_index_prefix<T>(s: Seq<T>, f: spec_fn(T) -> bool, n: int)
    requires
        0 <= n <= s.len(),
        first_index(s.subrange(0, n), f) is Some,
    ensures
        first_index(s, f) == first_index(s.subrange(0, n), f),
    decreases s.len() - n,
{
    if n < s.len() {
        lemma_first_index_push(s, f, n);
        lemma_first_index_prefix(s, f, n + 1);
    } else {
        assert(s.subrange(0, n) =~= s);
    }
}

/// The last index at or below `k` where `n` occurs in `s`.
pub open spec fn last_occurrence_from(s: Seq<char>, n: Seq<char>, k: int) -> Option<int>
    decreases k + 1,
{
    if k < 0 {
        None
    } else if occurs_at(s, n, k) {
        Some(k)
    } else {
        last_occurrence_from(s, n, k - 1)
    }
}

/// The last index where `n` occurs in `s`, as `str::rsplit_once` finds it.
pub open spec fn last_occurrence(s: Seq<char>, n: Seq<char>) -> Option<int> {
    last_occurrence_from(s, n, s.len() as int)
}

pub proof fn lemma_last_occurrence_bounds(s: Seq<char>, n: Seq<char>, k: int)
    ensures
        last_occurrence_from(s, n, k) matches Some(i) ==> i <= k && occurs_at(s, n, i),
    decreases k + 1,
{
    if k >= 0 && !occurs_at(s, n, k) {
        lemma_last_occurrence_bounds(s, n, k - 1);
    }
}

/// The last index where `n` occurs in `s`.
pub fn find_last(s: &Vec<char>, n: &Vec<char>) -> (r: Option<usize>)
    ensures
        opt_index(r) == last_occurrence(s@, n@),
        r matches Some(i) ==> occurs_at(s@, n@, i as int),
{
    proof {
        lemma_last_occurrence_bounds(s@, n@, s@.len() as int);
    }
    let mut k: usize = s.len();
    loop
        invariant
            k <= s@.len(),
            last_occurrence(s@, n@) == last_occurrence_from(s@, n@, k as int),
        decreases k,
    {
        if occurs_at_exec(s, n, k) {
            return Some(k);
        }
        if k == 0 {
            return None;
        }
        k = k - 1;
    }
}

/// What `str::parse::<u64>` gives.
pub open spec fn parse_u64_spec(s: Seq<char>) -> Option<u64> {
    let d = unsigned_digits(s);
    if d.len() > 0 && all_digits(d) && decimal_value(d) <= u64::MAX {
        Some(decimal_value(d) as u64)
    } else {
        None
    }
}

/// Reads `v[from..to]` as an unsigned 64-bit number the way `str::parse` does.
pub fn parse_u64_range(v: &Vec<char>, from: usize, to: usize) -> (r: Option<u64>)
    requires
        from <= to <= v.len(),
    ensures
        r == parse_u64_spec(v@.subrange(from as int, to as int)),
{
    let ghost s = v@.subrange(from as int, to as int);
    let mut start = from;
    if start < to && v[start] == '+' {
        start = start + 1;
    }
    let ghost d = v@.subrange(start as int, to as int);
    assert(d =~= unsigned_digits(s));
    if start >= to {
        return None;
    }
    let mut acc: u128 = 0;
    let mut k = start;
    while k < to
        invariant
            from <= start <= k <= to <= v.len(),
            d == v@.subrange(start as int, to as int),
            d == unsigned_digits(s),
            s == v@.subrange(from as int, to as int),
            start < to,
            forall|i: int| start <= i < k ==> is_digit(#[trigger] v@[i]),
            acc == decimal_value(v@.subrange(start as int, k as int)),
            acc <= u64::MAX,
        decreases to - k,
    {
        let c = v[k];
        if !('0' <= c && c <= '9') {
            assert(d[k - start] == c);
            return None;
        }
        let dv = (c as u32 - '0' as u32) as u128;
        assert(v@.subrange(start as int, k + 1).drop_last() =~= v@.subrange(start as int, k as int));
        acc = acc * 10 + dv;
        k = k + 1;
        assert(v@.subrange(start as int, k as int).last() == c);
        if acc > 0xFFFF_FFFF_FFFF_FFFF {
            proof {
                if all_digits(d) {
                    assert(d.subrange(0, k - start) =~= v@.subrange(start as int, k as int));
                    lemma_decimal_prefix_le(d, k - start);
                }
            }
            return None;
        }
    }
    assert(d =~= v@.subrange(start as int, k as int));
    Some(acc as u64)
}

/// The number of characters of `s`.
pub fn char_count(s: &str) -> (n: usize)
    ensures
        n == s@.len(),
{
    let v = chars_of(s);
    v.len()
}

/// `s` without its leading `c`s.
pub open spec fn trim_start_char(s: Seq<char>, c: char) -> Seq<char>
    decreases s.len(),
{
    if s.len() > 0 && s[0] == c {
        trim_start_char(s.drop_first(), c)
    } else {
        s
    }
}

/// `s` without its trailing `c`s.
pub open spec fn trim_end_char(s: Seq<char>, c: char) -> Seq<char>
    decreases s.len(),
{
    if s.len() > 0 && s.last() == c {
        trim_end_char(s.drop_last(), c)
    } else {
        s
    }
}

/// What `String::from_utf8_lossy` decodes from bytes: invalid sequences
/// become U+FFFD.
pub uninterp spec fn utf8_lossy(bytes: Seq<u8>) -> Seq<char>;

/// `String::from_utf8_lossy`, owned.
#[verifier::external_body]
pub(crate) fn from_utf8_lossy(bytes: &[u8]) -> (r: String)
    ensures
        r@ == utf8_lossy(bytes@),
{
    String::from_utf8_lossy(bytes).into_owned()
}

/// `s`, cut to its first `n` characters.
pub open spec fn take_chars(s: Seq<char>, n: nat) -> Seq<char> {
    if s.len() <= n { s } else { s.subrange(0, n as int) }
}

/// Whether two character vectors are equal.
pub fn chars_eq(a: &Vec<char>, b: &Vec<char>) -> (r: bool)
    ensures
        r == (a@ == b@),
{
    if a.len() != b.len() {
        return false;
    }
    let r = occurs_at_exec(a, b, 0);
    assert(a@.subrange(0, b@.len() as int) =~= a@);
    r
}

/// Whether `s` starts with `p`.
pub fn starts_with_exec(s: &Vec<char>, p: &Vec<char>) -> (b: bool)
    ensures
        b == has_prefix(s@, p@),
{
    occurs_at_exec(s, p, 0)
}

/// Whether `s` ends with `p`.
pub fn ends_with_exec(s: &Vec<char>, p: &Vec<char>) -> (b: bool)
    ensures
        b == has_suffix(s@, p@),
{
    if p.len() > s.len() {
        return false;
    }
    occurs_at_exec(s, p, s.len() - p.len())
}

/// `std::str::from_utf8`: the text that bytes encode, when they are valid
/// UTF-8; none otherwise.
#[verifier::external_body]
pub(crate) fn utf8_text(bytes: &[u8]) -> (r: Option<&str>)
    ensures
        r is Some <==> vstd::utf8::valid_utf8(bytes@),
        r matches Some(s) ==> s@ == vstd::utf8::decode_utf8(bytes@),
{
    std::str::from_utf8(bytes).ok()
}

} // verus!
