//! Byte-level vocabulary shared by the parser, the header map and the
//! renderer: ASCII case folding, whitespace trimming, tokenization, and
//! decimal numerals, each as a spec function with a verified executable
//! counterpart.

use vstd::prelude::*;

verus! {

/// ASCII space.
pub const SP: u8 = 32;
/// ASCII horizontal tab.
pub const HT: u8 = 9;
/// ASCII line feed.
pub const LF: u8 = 10;
/// ASCII vertical tab.
pub const VT: u8 = 11;
/// ASCII form feed.
pub const FF: u8 = 12;
/// ASCII carriage return.
pub const CR: u8 = 13;
/// ASCII colon.
pub const COLON: u8 = 58;
/// ASCII comma.
pub const COMMA: u8 = 44;
/// ASCII slash.
pub const SLASH: u8 = 47;
/// ASCII digit zero.
pub const D0: u8 = 48;
/// ASCII digit nine.
pub const D9: u8 = 57;

/// Is `b` an upper-case ASCII letter?
pub open spec fn is_upper(b: u8) -> bool {
    65 <= b && b <= 90
}

/// ASCII-lower-case a single byte; bytes outside `A..=Z` are unchanged.
pub open spec fn lower_byte(b: u8) -> u8 {
    if is_upper(b) {
        (b + 32) as u8
    } else {
        b
    }
}

/// ASCII-lower-case a whole byte sequence.
pub open spec fn lower_seq(s: Seq<u8>) -> Seq<u8> {
    s.map_values(|b: u8| lower_byte(b))
}

/// Whitespace as stripped from the ends of a header value: the six ASCII
/// whitespace characters.
pub open spec fn is_trim_ws(b: u8) -> bool {
    b == SP || b == HT || b == LF || b == VT || b == FF || b == CR
}

/// Whitespace that separates the tokens of a request line (ASCII whitespace
/// without the vertical tab).
pub open spec fn is_token_ws(b: u8) -> bool {
    b == SP || b == HT || b == LF || b == FF || b == CR
}

/// Every byte of `s` is trimmable whitespace.
pub open spec fn all_ws(s: Seq<u8>) -> bool {
    forall|i: int| 0 <= i < s.len() ==> is_trim_ws(s[i])
}

/// Length of the longest whitespace prefix of `s`.
pub open spec fn ws_prefix_len(s: Seq<u8>) -> int
    decreases s.len(),
{
    if s.len() == 0 || !is_trim_ws(s[0]) {
        0
    } else {
        1 + ws_prefix_len(s.drop_first())
    }
}

/// Length of the longest whitespace suffix of `s`.
pub open spec fn ws_suffix_len(s: Seq<u8>) -> int
    decreases s.len(),
{
    if s.len() == 0 || !is_trim_ws(s.last()) {
        0
    } else {
        1 + ws_suffix_len(s.drop_last())
    }
}

/// `s` with leading and trailing whitespace removed.
pub open spec fn trim_seq(s: Seq<u8>) -> Seq<u8> {
    let a = ws_prefix_len(s);
    let b = ws_suffix_len(s);
    if a + b <= s.len() {
        s.subrange(a, s.len() - b)
    } else {
        Seq::empty()
    }
}

proof fn lemma_ws_prefix_len_bounds(s: Seq<u8>)
    ensures
        0 <= ws_prefix_len(s) <= s.len(),
        forall|j: int| 0 <= j < ws_prefix_len(s) ==> is_trim_ws(s[j]),
        ws_prefix_len(s) < s.len() ==> !is_trim_ws(s[ws_prefix_len(s)]),
    decreases s.len(),
{
    if s.len() > 0 && is_trim_ws(s[0]) {
        lemma_ws_prefix_len_bounds(s.drop_first());
        assert forall|j: int| 0 <= j < ws_prefix_len(s) implies is_trim_ws(s[j]) by {
            if j > 0 {
                assert(s.drop_first()[j - 1] == s[j]);
            }
        }
        if ws_prefix_len(s) < s.len() {
            assert(s.drop_first()[ws_prefix_len(s) - 1] == s[ws_prefix_len(s)]);
        }
    }
}

proof fn lemma_ws_suffix_len_bounds(s: Seq<u8>)
    ensures
        0 <= ws_suffix_len(s) <= s.len(),
        forall|j: int| s.len() - ws_suffix_len(s) <= j < s.len() ==> is_trim_ws(s[j]),
        ws_suffix_len(s) < s.len() ==> !is_trim_ws(s[s.len() - ws_suffix_len(s) - 1]),
    decreases s.len(),
{
    if s.len() > 0 && is_trim_ws(s.last()) {
        lemma_ws_suffix_len_bounds(s.drop_last());
        assert forall|j: int| s.len() - ws_suffix_len(s) <= j < s.len() implies is_trim_ws(
            s[j],
        ) by {
            if j < s.len() - 1 {
                assert(s.drop_last()[j] == s[j]);
            }
        }
        if ws_suffix_len(s) < s.len() {
            assert(s.drop_last()[s.len() - ws_suffix_len(s) - 1] == s[s.len() - ws_suffix_len(s)
                - 1]);
        }
    }
}

/// Characterize the whitespace prefix length by its defining properties, so
/// that a loop that scans forward can conclude it computed `ws_prefix_len`.
proof fn lemma_ws_prefix_len_is(s: Seq<u8>, i: int)
    requires
        0 <= i <= s.len(),
        forall|j: int| 0 <= j < i ==> is_trim_ws(s[j]),
        i < s.len() ==> !is_trim_ws(s[i]),
    ensures
        ws_prefix_len(s) == i,
    decreases s.len(),
{
    if s.len() > 0 && is_trim_ws(s[0]) {
        assert(i > 0);
        lemma_ws_prefix_len_is(s.drop_first(), i - 1);
    }
}

/// The mirror characterization for the whitespace suffix length.
proof fn lemma_ws_suffix_len_is(s: Seq<u8>, i: int)
    requires
        0 <= i <= s.len(),
        forall|j: int| s.len() - i <= j < s.len() ==> is_trim_ws(s[j]),
        i < s.len() ==> !is_trim_ws(s[s.len() - i - 1]),
    ensures
        ws_suffix_len(s) == i,
    decreases s.len(),
{
    if s.len() > 0 && is_trim_ws(s.last()) {
        assert(i > 0);
        assert(forall|j: int|
            s.drop_last().len() - (i - 1) <= j < s.drop_last().len() ==> is_trim_ws(
                s.drop_last()[j],
            ));
        lemma_ws_suffix_len_is(s.drop_last(), i - 1);
    }
}

/// A sequence trims to empty exactly when it is all whitespace.
pub proof fn lemma_trim_empty_iff_all_ws(s: Seq<u8>)
    ensures
        trim_seq(s).len() == 0 <==> all_ws(s),
{
    lemma_ws_prefix_len_bounds(s);
    lemma_ws_suffix_len_bounds(s);
    if all_ws(s) {
        lemma_ws_prefix_len_is(s, s.len() as int);
    }
}

/// Copy of `v[from..to]` as a fresh vector.
pub fn subrange_vec(v: &Vec<u8>, from: usize, to: usize) -> (r: Vec<u8>)
    requires
        from <= to <= v@.len(),
    ensures
        r@ == v@.subrange(from as int, to as int),
{
    let mut r: Vec<u8> = Vec::new();
    let mut i: usize = from;
    while i < to
        invariant
            from <= i <= to <= v@.len(),
            r@ == v@.subrange(from as int, i as int),
        decreases to - i,
    {
        r.push(v[i]);
        i = i + 1;
        assert(r@ =~= v@.subrange(from as int, i as int));
    }
    r
}

/// A fresh copy of `v`.
pub fn copy_vec(v: &Vec<u8>) -> (r: Vec<u8>)
    ensures
        r@ == v@,
{
    let r = subrange_vec(v, 0, v.len());
    assert(v@.subrange(0, v@.len() as int) =~= v@);
    r
}

/// Append every byte of `src` to `dst`.
pub fn append_vec(dst: &mut Vec<u8>, src: &Vec<u8>)
    ensures
        final(dst)@ == old(dst)@ + src@,
{
    let mut i: usize = 0;
    while i < src.len()
        invariant
            i <= src@.len(),
            dst@ == old(dst)@ + src@.subrange(0, i as int),
        decreases src@.len() - i,
    {
        dst.push(src[i]);
        i = i + 1;
        assert(dst@ =~= old(dst)@ + src@.subrange(0, i as int));
    }
    assert(dst@ =~= old(dst)@ + src@);
}

/// Byte-for-byte equality of two vectors.
pub fn eq_bytes(a: &Vec<u8>, b: &Vec<u8>) -> (r: bool)
    ensures
        r == (a@ == b@),
{
    if a.len() != b.len() {
        return false;
    }
    let mut i: usize = 0;
    while i < a.len()
        invariant
            a@.len() == b@.len(),
            i <= a@.len(),
            forall|j: int| 0 <= j < i ==> a@[j] == b@[j],
        decreases a@.len() - i,
    {
        if a[i] != b[i] {
            return false;
        }
        i = i + 1;
    }
    assert(a@ =~= b@);
    true
}

/// ASCII-lower-case every byte of `v`.
pub fn lower_vec(v: &Vec<u8>) -> (r: Vec<u8>)
    ensures
        r@ == lower_seq(v@),
{
    let mut r: Vec<u8> = Vec::new();
    let mut i: usize = 0;
    while i < v.len()
        invariant
            i <= v@.len(),
            r@.len() == i,
            forall|j: int| 0 <= j < i ==> r@[j] == lower_byte(v@[j]),
        decreases v@.len() - i,
    {
        let b = v[i];
        if 65 <= b && b <= 90 {
            r.push(b + 32);
        } else {
            r.push(b);
        }
        i = i + 1;
    }
    assert(r@ =~= lower_seq(v@));
    r
}

/// Strip leading and trailing whitespace from `v`.
pub fn trim_vec(v: &Vec<u8>) -> (r: Vec<u8>)
    ensures
        r@ == trim_seq(v@),
{
    let mut lo: usize = 0;
    while lo < v.len() && is_trim_ws_exec(v[lo])
        invariant
            lo <= v@.len(),
            forall|j: int| 0 <= j < lo ==> is_trim_ws(v@[j]),
        decreases v@.len() - lo,
    {
        lo = lo + 1;
    }
    proof {
        lemma_ws_prefix_len_is(v@, lo as int);
    }
    if lo == v.len() {
        proof {
            lemma_ws_suffix_len_bounds(v@);
        }
        return Vec::new();
    }
    let mut hi: usize = v.len();
    while hi > lo && is_trim_ws_exec(v[hi - 1])
        invariant
            lo <= hi <= v@.len(),
            lo < v@.len(),
            !is_trim_ws(v@[lo as int]),
            forall|j: int| hi <= j < v@.len() ==> is_trim_ws(v@[j]),
        decreases hi,
    {
        hi = hi - 1;
    }
    proof {
        assert(hi > lo);
        lemma_ws_suffix_len_is(v@, v@.len() - hi);
    }
    subrange_vec(v, lo, hi)
}

/// Whether `b` counts as trimmable whitespace.
pub fn is_trim_ws_exec(b: u8) -> (r: bool)
    ensures
        r == is_trim_ws(b),
{
    b == SP || b == HT || b == LF || b == VT || b == FF || b == CR
}

/// Whether `b` separates request-line tokens.
pub fn is_token_ws_exec(b: u8) -> (r: bool)
    ensures
        r == is_token_ws(b),
{
    b == SP || b == HT || b == LF || b == FF || b == CR
}

/// Whether the line is nothing but whitespace (a blank line on the wire).
pub fn is_blank(v: &Vec<u8>) -> (r: bool)
    ensures
        r == all_ws(v@),
        r == (trim_seq(v@).len() == 0),
{
    proof {
        lemma_trim_empty_iff_all_ws(v@);
    }
    let mut i: usize = 0;
    while i < v.len()
        invariant
            i <= v@.len(),
            forall|j: int| 0 <= j < i ==> is_trim_ws(v@[j]),
        decreases v@.len() - i,
    {
        if !is_trim_ws_exec(v[i]) {
            proof {
                lemma_trim_empty_iff_all_ws(v@);
            }
            return false;
        }
        i = i + 1;
    }
    true
}

/// `needle` occurs somewhere in `haystack` as a contiguous run.
pub open spec fn contains_bytes(haystack: Seq<u8>, needle: Seq<u8>) -> bool {
    exists|i: int|
        0 <= i <= haystack.len() - needle.len() && #[trigger] haystack.subrange(
            i,
            i + needle.len(),
        ) == needle
}

/// Trimming leaves a sequence alone when neither end is whitespace.
pub proof fn lemma_trim_noop(s: Seq<u8>)
    requires
        s.len() > 0,
        !is_trim_ws(s[0]),
        !is_trim_ws(s[s.len() - 1]),
    ensures
        trim_seq(s) == s,
{
    lemma_ws_prefix_len_is(s, 0);
    lemma_ws_suffix_len_is(s, 0);
    assert(trim_seq(s) =~= s);
}

/// Index of the first occurrence of `b` in `s` at or after `i`, or -1.
pub open spec fn find_from(s: Seq<u8>, b: u8, i: int) -> int
    decreases s.len() - i,
{
    if i < 0 || i >= s.len() {
        -1
    } else if s[i] == b {
        i
    } else {
        find_from(s, b, i + 1)
    }
}

/// Index of the first occurrence of `b` in `s`, or -1.
pub open spec fn find_byte(s: Seq<u8>, b: u8) -> int {
    find_from(s, b, 0)
}

proof fn lemma_find_from_is(s: Seq<u8>, b: u8, k: int, i: int)
    requires
        0 <= k <= i <= s.len(),
        forall|j: int| k <= j < i ==> s[j] != b,
        i < s.len() ==> s[i] == b,
    ensures
        find_from(s, b, k) == if i < s.len() {
            i
        } else {
            -1
        },
    decreases i - k,
{
    if k < i {
        lemma_find_from_is(s, b, k + 1, i);
    }
}

/// The first occurrence of `b`, by the properties a forward scan checks.
pub proof fn lemma_find_byte_is(s: Seq<u8>, b: u8, i: int)
    requires
        0 <= i <= s.len(),
        forall|j: int| 0 <= j < i ==> s[j] != b,
        i < s.len() ==> s[i] == b,
    ensures
        find_byte(s, b) == if i < s.len() {
            i
        } else {
            -1
        },
{
    lemma_find_from_is(s, b, 0, i);
}

/// Position of the first occurrence of `b` in `v`, if there is one.
pub fn find_byte_vec(v: &Vec<u8>, b: u8) -> (r: Option<usize>)
    ensures
        (match r {
            Some(i) => find_byte(v@, b) == i && i < v@.len(),
            None => find_byte(v@, b) == -1,
        }),
{
    let mut i: usize = 0;
    while i < v.len()
        invariant
            i <= v@.len(),
            forall|j: int| 0 <= j < i ==> v@[j] != b,
        decreases v@.len() - i,
    {
        if v[i] == b {
            proof {
                lemma_find_byte_is(v@, b, i as int);
            }
            return Some(i);
        }
        i = i + 1;
    }
    proof {
        lemma_find_byte_is(v@, b, v@.len() as int);
    }
    None
}

/// Index of the last occurrence of `b` in `s`, or -1.
pub open spec fn rfind_byte(s: Seq<u8>, b: u8) -> int
    decreases s.len(),
{
    if s.len() == 0 {
        -1
    } else if s.last() == b {
        s.len() - 1
    } else {
        rfind_byte(s.drop_last(), b)
    }
}

/// The last occurrence of `b`, by the properties a backward scan checks.
pub proof fn lemma_rfind_byte_is(s: Seq<u8>, b: u8, i: int)
    requires
        -1 <= i < s.len(),
        i >= 0 ==> s[i] == b,
        forall|j: int| i < j < s.len() ==> s[j] != b,
    ensures
        rfind_byte(s, b) == i,
    decreases s.len(),
{
    if s.len() > 0 {
        if s.last() == b {
            assert(i == s.len() - 1);
        } else {
            assert(i < s.len() - 1);
            assert(forall|j: int|
                i < j < s.drop_last().len() ==> s.drop_last()[j] != b);
            lemma_rfind_byte_is(s.drop_last(), b, i);
        }
    }
}

/// Everything after the final slash of `s` (all of `s` if it has no slash).
pub open spec fn last_segment(s: Seq<u8>) -> Seq<u8> {
    s.subrange(rfind_byte(s, SLASH) + 1, s.len() as int)
}

/// Copy of everything after the final slash of `v`.
pub fn last_segment_vec(v: &Vec<u8>) -> (r: Vec<u8>)
    ensures
        r@ == last_segment(v@),
{
    let mut i: usize = v.len();
    while i > 0 && v[i - 1] != SLASH
        invariant
            i <= v@.len(),
            forall|j: int| i <= j < v@.len() ==> v@[j] != SLASH,
        decreases i,
    {
        i = i - 1;
    }
    proof {
        lemma_rfind_byte_is(v@, SLASH, i - 1);
    }
    subrange_vec(v, i, v.len())
}

/// Does `s` begin with `p`?
pub open spec fn starts_with(s: Seq<u8>, p: Seq<u8>) -> bool {
    s.len() >= p.len() && s.subrange(0, p.len() as int) == p
}

/// Does `v` begin with `p`?
pub fn starts_with_vec(v: &Vec<u8>, p: &Vec<u8>) -> (r: bool)
    ensures
        r == starts_with(v@, p@),
{
    if v.len() < p.len() {
        return false;
    }
    let mut i: usize = 0;
    while i < p.len()
        invariant
            p@.len() <= v@.len(),
            i <= p@.len(),
            forall|j: int| 0 <= j < i ==> v@[j] == p@[j],
        decreases p@.len() - i,
    {
        if v[i] != p[i] {
            assert(v@.subrange(0, p@.len() as int)[i as int] != p@[i as int]);
            return false;
        }
        i = i + 1;
    }
    assert(v@.subrange(0, p@.len() as int) =~= p@);
    true
}

/// One step of splitting `s` into its whitespace-separated tokens: `i` is
/// the position reached, `cur` the token being collected, `acc` the tokens
/// already emitted.
pub open spec fn split_ws_rec(s: Seq<u8>, i: int, cur: Seq<u8>, acc: Seq<Seq<u8>>) -> Seq<Seq<u8>>
    decreases s.len() - i,
{
    if i < 0 || i >= s.len() {
        if cur.len() > 0 {
            acc.push(cur)
        } else {
            acc
        }
    } else if is_token_ws(s[i]) {
        if cur.len() > 0 {
            split_ws_rec(s, i + 1, Seq::empty(), acc.push(cur))
        } else {
            split_ws_rec(s, i + 1, cur, acc)
        }
    } else {
        split_ws_rec(s, i + 1, cur.push(s[i]), acc)
    }
}

/// The whitespace-separated tokens of `s`, in order, with no empty tokens.
pub open spec fn split_ws(s: Seq<u8>) -> Seq<Seq<u8>> {
    split_ws_rec(s, 0, Seq::empty(), Seq::empty())
}

/// The whitespace-separated tokens of `v`.
pub fn split_ws_vec(v: &Vec<u8>) -> (r: Vec<Vec<u8>>)
    ensures
        r.deep_view() == split_ws(v@),
{
    let mut acc: Vec<Vec<u8>> = Vec::new();
    let mut cur: Vec<u8> = Vec::new();
    assert(acc.deep_view() =~~= Seq::<Seq<u8>>::empty());
    let mut i: usize = 0;
    while i < v.len()
        invariant
            i <= v@.len(),
            split_ws(v@) == split_ws_rec(v@, i as int, cur@, acc.deep_view()),
        decreases v@.len() - i,
    {
        let b = v[i];
        if is_token_ws_exec(b) {
            if cur.len() > 0 {
                let ghost prev = acc.deep_view();
                acc.push(cur);
                assert(acc.deep_view() =~~= prev.push(cur@));
                cur = Vec::new();
            }
        } else {
            cur.push(b);
        }
        i = i + 1;
    }
    if cur.len() > 0 {
        let ghost prev = acc.deep_view();
        acc.push(cur);
        assert(acc.deep_view() =~~= prev.push(cur@));
    }
    acc
}

/// One step of splitting `s` at every occurrence of `sep`, empty pieces
/// kept, mirroring how a client-supplied list is cut at its commas.
pub open spec fn split_sep_rec(
    s: Seq<u8>,
    sep: u8,
    i: int,
    cur: Seq<u8>,
    acc: Seq<Seq<u8>>,
) -> Seq<Seq<u8>>
    decreases s.len() - i,
{
    if i < 0 || i >= s.len() {
        acc.push(cur)
    } else if s[i] == sep {
        split_sep_rec(s, sep, i + 1, Seq::empty(), acc.push(cur))
    } else {
        split_sep_rec(s, sep, i + 1, cur.push(s[i]), acc)
    }
}

/// The pieces of `s` between occurrences of `sep`; always at least one.
pub open spec fn split_sep(s: Seq<u8>, sep: u8) -> Seq<Seq<u8>> {
    split_sep_rec(s, sep, 0, Seq::empty(), Seq::empty())
}

/// The pieces of `v` between occurrences of `sep`.
pub fn split_sep_vec(v: &Vec<u8>, sep: u8) -> (r: Vec<Vec<u8>>)
    ensures
        r.deep_view() == split_sep(v@, sep),
{
    let mut acc: Vec<Vec<u8>> = Vec::new();
    let mut cur: Vec<u8> = Vec::new();
    assert(acc.deep_view() =~~= Seq::<Seq<u8>>::empty());
    let mut i: usize = 0;
    while i < v.len()
        invariant
            i <= v@.len(),
            split_sep(v@, sep) == split_sep_rec(v@, sep, i as int, cur@, acc.deep_view()),
        decreases v@.len() - i,
    {
        let b = v[i];
        if b == sep {
            let ghost prev = acc.deep_view();
            acc.push(cur);
            assert(acc.deep_view() =~~= prev.push(cur@));
            cur = Vec::new();
        } else {
            cur.push(b);
        }
        i = i + 1;
    }
    let ghost prev = acc.deep_view();
    acc.push(cur);
    assert(acc.deep_view() =~~= prev.push(cur@));
    acc
}

/// Is `b` an ASCII digit?
pub open spec fn is_digit(b: u8) -> bool {
    D0 <= b && b <= D9
}

/// A non-empty, all-digit numeral.
pub open spec fn all_digits(s: Seq<u8>) -> bool {
    s.len() > 0 && forall|i: int| 0 <= i < s.len() ==> is_digit(s[i])
}

/// The value of the decimal numeral `s` (most significant digit first).
pub open spec fn dec_value(s: Seq<u8>) -> int
    decreases s.len(),
{
    if s.len() == 0 {
        0
    } else {
        dec_value(s.drop_last()) * 10 + s.last() - D0
    }
}

/// Decimal digits never make the value negative.
pub proof fn lemma_dec_value_nonneg(s: Seq<u8>)
    requires
        forall|i: int| 0 <= i < s.len() ==> is_digit(s[i]),
    ensures
        dec_value(s) >= 0,
    decreases s.len(),
{
    if s.len() > 0 {
        lemma_dec_value_nonneg(s.drop_last());
    }
}

/// Extending a numeral by more digits never shrinks its value.
pub proof fn lemma_dec_value_prefix(s: Seq<u8>, i: int)
    requires
        forall|j: int| 0 <= j < s.len() ==> is_digit(s[j]),
        0 <= i <= s.len(),
    ensures
        dec_value(s.subrange(0, i)) <= dec_value(s),
    decreases s.len() - i,
{
    if i < s.len() {
        lemma_dec_value_prefix(s, i + 1);
        assert(s.subrange(0, i + 1).drop_last() =~= s.subrange(0, i));
        lemma_dec_value_nonneg(s.subrange(0, i));
    } else {
        assert(s.subrange(0, i) =~= s);
    }
}

/// The decimal numeral of `n` (no sign, no leading zeros except for 0).
pub open spec fn dec_digits(n: nat) -> Seq<u8>
    decreases n,
{
    if n < 10 {
        seq![(D0 + n) as u8]
    } else {
        dec_digits(n / 10).push((D0 + n % 10) as u8)
    }
}

/// A rendered numeral is never empty and consists of digits only.
pub proof fn lemma_dec_digits_digits(n: nat)
    ensures
        dec_digits(n).len() > 0,
        forall|i: int| 0 <= i < dec_digits(n).len() ==> is_digit(dec_digits(n)[i]),
    decreases n,
{
    if n >= 10 {
        lemma_dec_digits_digits(n / 10);
        assert forall|i: int| 0 <= i < dec_digits(n).len() implies is_digit(dec_digits(n)[i]) by {
            if i < dec_digits(n / 10).len() {
                assert(dec_digits(n)[i] == dec_digits(n / 10)[i]);
            }
        }
    }
}

/// Parse a decimal numeral: the whole vector must be digits and the value
/// must fit a `usize`.
pub fn parse_dec(v: &Vec<u8>) -> (r: Option<usize>)
    ensures
        r is Some <==> all_digits(v@) && dec_value(v@) <= usize::MAX,
        r is Some ==> r->0 == dec_value(v@),
{
    if v.len() == 0 {
        return None;
    }
    let mut acc: usize = 0;
    let mut i: usize = 0;
    while i < v.len()
        invariant
            0 < v@.len(),
            i <= v@.len(),
            forall|j: int| 0 <= j < i ==> is_digit(v@[j]),
            acc == dec_value(v@.subrange(0, i as int)),
        decreases v@.len() - i,
    {
        let b = v[i];
        if b < D0 || b > D9 {
            return None;
        }
        let d: usize = (b - D0) as usize;
        if acc > (usize::MAX - d) / 10 {
            proof {
                if all_digits(v@) {
                    assert(v@.subrange(0, i + 1).drop_last() =~= v@.subrange(0, i as int));
                    assert(dec_value(v@.subrange(0, i + 1)) == acc * 10 + d);
                    assert(acc * 10 + d > usize::MAX) by (nonlinear_arith)
                        requires
                            acc > (usize::MAX - d) / 10,
                            0 <= d <= 9,
                            acc >= 0,
                    ;
                    lemma_dec_value_prefix(v@, i + 1);
                }
            }
            return None;
        }
        proof {
            assert(acc * 10 + d <= usize::MAX) by (nonlinear_arith)
                requires
                    acc <= (usize::MAX - d) / 10,
                    0 <= d <= 9,
                    acc >= 0,
            ;
            assert(v@.subrange(0, i + 1).drop_last() =~= v@.subrange(0, i as int));
        }
        acc = acc * 10 + d;
        i = i + 1;
    }
    assert(v@.subrange(0, v@.len() as int) =~= v@);
    Some(acc)
}

/// Render `n` as decimal digits.
pub fn usize_to_dec(n: usize) -> (r: Vec<u8>)
    ensures
        r@ == dec_digits(n as nat),
{
    let mut tmp: Vec<u8> = Vec::new();
    let mut m: usize = n;
    while m >= 10
        invariant
            dec_digits(n as nat) == dec_digits(m as nat) + tmp@.reverse(),
        decreases m,
    {
        let d: u8 = (m % 10) as u8;
        let ghost old_tmp = tmp@;
        tmp.push(D0 + d);
        m = m / 10;
        proof {
            assert(tmp@.reverse() =~= seq![(D0 + (m as nat * 10 + d as nat) % 10) as u8]
                + old_tmp.reverse());
        }
    }
    let mut r: Vec<u8> = Vec::new();
    r.push(D0 + (m as u8));
    let mut j: usize = tmp.len();
    while j > 0
        invariant
            j <= tmp@.len(),
            r@ == seq![(D0 + m as nat) as u8] + tmp@.subrange(j as int, tmp@.len() as int).reverse(),
            dec_digits(n as nat) == dec_digits(m as nat) + tmp@.reverse(),
            m < 10,
        decreases j,
    {
        j = j - 1;
        r.push(tmp[j]);
        proof {
            assert(tmp@.subrange(j as int, tmp@.len() as int).reverse() =~= tmp@.subrange(
                j + 1,
                tmp@.len() as int,
            ).reverse().push(tmp@[j as int]));
        }
    }
    proof {
        assert(tmp@.subrange(0, tmp@.len() as int) =~= tmp@);
        assert(r@ =~= dec_digits(n as nat));
    }
    r
}

} // verus!
