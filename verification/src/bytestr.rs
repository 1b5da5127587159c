//! Byte-sequence utilities shared by the parser and the serializer:
//! whitespace classification, searching for one- and two-byte patterns,
//! splitting and joining on a two-byte separator, whitespace tokenization,
//! trimming, and decimal rendering of numbers.

use vstd::prelude::*;

verus! {

/// The carriage-return byte of the line terminator.
pub const CR: u8 = 13;

/// The line-feed byte of the line terminator.
pub const LF: u8 = 10;

/// ASCII whitespace, as the request-line tokenizer and `trim` understand
/// it: space, tab, line feed, vertical tab, form feed and carriage return.
/// This is a deliberate narrowing — the parser works on bytes, so the
/// multi-byte characters that Unicode also counts as whitespace are
/// ordinary text here.
pub open spec fn is_ws(b: u8) -> bool {
    b == 32 || b == 9 || b == 10 || b == 13 || b == 11 || b == 12
}

pub fn is_ws_byte(b: u8) -> (r: bool)
    ensures
        r == is_ws(b),
{
    b == 32 || b == 9 || b == 10 || b == 13 || b == 11 || b == 12
}

/// Equality of two byte vectors, reflected into their views.
pub fn bytes_eq(a: &Vec<u8>, b: &Vec<u8>) -> (r: bool)
    ensures
        r == (a@ == b@),
{
    let r = a == b;
    proof {
        if r {
            assert(a@ =~= b@);
        }
        if a@ == b@ {
            assert(vstd::std_specs::cmp::PartialEqSpec::eq_spec(a, b));
        }
    }
    r
}

/// Does `s` start with prefix `p`?
pub open spec fn spec_starts_with(s: Seq<u8>, p: Seq<u8>) -> bool {
    p.len() <= s.len() && s.subrange(0, p.len() as int) == p
}

pub fn starts_with(s: &Vec<u8>, p: &Vec<u8>) -> (r: bool)
    ensures
        r == spec_starts_with(s@, p@),
{
    if p.len() > s.len() {
        return false;
    }
    let mut i: usize = 0;
    while i < p.len()
        invariant
            0 <= i <= p.len() <= s.len(),
            forall|k: int| 0 <= k < i ==> s@[k] == p@[k],
        decreases p.len() - i,
    {
        if s[i] != p[i] {
            assert(s@.subrange(0, p@.len() as int)[i as int] != p@[i as int]);
            return false;
        }
        i += 1;
    }
    proof {
        assert(s@.subrange(0, p@.len() as int) =~= p@);
    }
    true
}

/// Index of the first occurrence of the two-byte pattern `a b` in `s` at or
/// after `from`, if any.
pub open spec fn spec_find2(s: Seq<u8>, a: u8, b: u8, from: int) -> Option<int>
    recommends
        0 <= from,
    decreases s.len() - from,
    when 0 <= from
{
    if from + 2 > s.len() {
        None
    } else if s[from] == a && s[from + 1] == b {
        Some(from)
    } else {
        spec_find2(s, a, b, from + 1)
    }
}

/// What `spec_find2` returns: the least match position, or none anywhere.
pub proof fn lemma_find2_props(s: Seq<u8>, a: u8, b: u8, from: int)
    requires
        0 <= from,
    ensures
        match spec_find2(s, a, b, from) {
            Some(j) => from <= j && j + 2 <= s.len() && s[j] == a && s[j + 1] == b && (forall|
                k: int,
            |
                #![trigger s[k]]
                from <= k < j ==> !(s[k] == a && s[k + 1] == b)),
            None => forall|k: int|
                #![trigger s[k]]
                from <= k && k + 2 <= s.len() ==> !(s[k] == a && s[k + 1] == b),
        },
    decreases s.len() - from,
{
    if from + 2 > s.len() {
    } else if s[from] == a && s[from + 1] == b {
    } else {
        lemma_find2_props(s, a, b, from + 1);
    }
}

/// The converse: a position with the stated minimality is the result.
pub proof fn lemma_find2_is(s: Seq<u8>, a: u8, b: u8, from: int, j: int)
    requires
        0 <= from <= j,
        j + 2 <= s.len(),
        s[j] == a,
        s[j + 1] == b,
        forall|k: int| #![trigger s[k]] from <= k < j ==> !(s[k] == a && s[k + 1] == b),
    ensures
        spec_find2(s, a, b, from) == Some(j),
    decreases j - from,
{
    if from < j {
        lemma_find2_is(s, a, b, from + 1, j);
    }
}

/// The converse for absence: no match anywhere means the search fails.
pub proof fn lemma_find2_none(s: Seq<u8>, a: u8, b: u8, from: int)
    requires
        0 <= from,
        forall|k: int| #![trigger s[k]] from <= k && k + 2 <= s.len() ==> !(s[k] == a && s[k + 1] == b),
    ensures
        spec_find2(s, a, b, from) is None,
    decreases s.len() - from,
{
    if from + 2 <= s.len() {
        lemma_find2_none(s, a, b, from + 1);
    }
}

/// Searching in a suffix finds the same match, shifted.
pub proof fn lemma_find2_shift(s: Seq<u8>, a: u8, b: u8, from: int)
    requires
        0 <= from <= s.len(),
    ensures
        spec_find2(s, a, b, from) == match spec_find2(
            s.subrange(from, s.len() as int),
            a,
            b,
            0,
        ) {
            Some(i) => Some(i + from),
            None => None::<int>,
        },
{
    let suf = s.subrange(from, s.len() as int);
    lemma_find2_props(suf, a, b, 0);
    match spec_find2(suf, a, b, 0) {
        Some(i) => {
            assert(forall|k: int|
                #![trigger s[k]]
                from <= k < i + from ==> !(s[k] == a && s[k + 1] == b)) by {
                assert(forall|k: int| #![trigger suf[k]] 0 <= k < i ==> !(suf[k] == a && suf[k + 1] == b));
                assert(forall|k: int|
                    #![trigger s[k]]
                    from <= k < i + from ==> suf[k - from] == s[k] && suf[k - from + 1] == s[k
                        + 1]);
            }
            lemma_find2_is(s, a, b, from, i + from);
        },
        None => {
            assert(forall|k: int|
                #![trigger s[k]]
                from <= k && k + 2 <= s.len() ==> !(s[k] == a && s[k + 1] == b)) by {
                assert(forall|k: int|
                    #![trigger s[k]]
                    from <= k && k + 2 <= s.len() ==> suf[k - from] == s[k] && suf[k - from + 1]
                        == s[k + 1]);
            }
            lemma_find2_none(s, a, b, from);
        },
    }
}

pub fn find2(s: &Vec<u8>, a: u8, b: u8, from: usize) -> (r: Option<usize>)
    ensures
        match r {
            Some(j) => spec_find2(s@, a, b, from as int) == Some(j as int) && from <= j && j + 2
                <= s@.len(),
            None => spec_find2(s@, a, b, from as int) is None,
        },
{
    let mut i: usize = from;
    loop
        invariant
            from <= i,
            spec_find2(s@, a, b, from as int) == spec_find2(s@, a, b, i as int),
        decreases s.len() + 2 - i,
    {
        if i >= s.len() || s.len() - i < 2 {
            return None;
        }
        if s[i] == a && s[i + 1] == b {
            return Some(i);
        }
        i += 1;
    }
}

/// A copy of the range `[i, j)` of `v`.
pub fn subvec(v: &Vec<u8>, i: usize, j: usize) -> (r: Vec<u8>)
    requires
        i <= j <= v@.len(),
    ensures
        r@ == v@.subrange(i as int, j as int),
{
    vstd::slice::slice_to_vec(vstd::slice::slice_subrange(v.as_slice(), i, j))
}

/// Is the two-byte pattern `a b` present anywhere in `s`?
pub open spec fn has_pair2(s: Seq<u8>, a: u8, b: u8) -> bool {
    exists|k: int| #![trigger s[k]] 0 <= k && k + 2 <= s.len() && s[k] == a && s[k + 1] == b
}

/// The pieces of `s` from position `from` on, split on the separator `a b`.
pub open spec fn spec_split2_from(s: Seq<u8>, a: u8, b: u8, from: int) -> Seq<Seq<u8>>
    recommends
        0 <= from <= s.len(),
    decreases s.len() - from,
    when 0 <= from <= s.len()
    via spec_split2_from_dec
{
    match spec_find2(s, a, b, from) {
        Some(j) => seq![s.subrange(from, j)] + spec_split2_from(s, a, b, j + 2),
        None => seq![s.subrange(from, s.len() as int)],
    }
}

#[via_fn]
proof fn spec_split2_from_dec(s: Seq<u8>, a: u8, b: u8, from: int) {
    lemma_find2_props(s, a, b, from);
}

/// The pieces of `s`, split on the separator `a b`.
pub open spec fn spec_split2(s: Seq<u8>, a: u8, b: u8) -> Seq<Seq<u8>> {
    spec_split2_from(s, a, b, 0)
}

/// Splitting never yields an empty list of pieces.
pub proof fn lemma_split2_from_len(s: Seq<u8>, a: u8, b: u8, from: int)
    requires
        0 <= from <= s.len(),
    ensures
        spec_split2_from(s, a, b, from).len() >= 1,
{
    lemma_find2_props(s, a, b, from);
}

/// Splitting from `from` is splitting the suffix that starts there.
pub proof fn lemma_split2_from_suffix(s: Seq<u8>, a: u8, b: u8, from: int)
    requires
        0 <= from <= s.len(),
    ensures
        spec_split2_from(s, a, b, from) == spec_split2(s.subrange(from, s.len() as int), a, b),
    decreases s.len() - from,
{
    let suf = s.subrange(from, s.len() as int);
    lemma_find2_shift(s, a, b, from);
    lemma_find2_props(s, a, b, from);
    match spec_find2(s, a, b, from) {
        Some(j) => {
            let i = j - from;
            lemma_split2_from_suffix(s, a, b, j + 2);
            lemma_split2_from_suffix(suf, a, b, i + 2);
            assert(s.subrange(from, j) =~= suf.subrange(0, i));
            assert(s.subrange(j + 2, s.len() as int) =~= suf.subrange(i + 2, suf.len() as int));
        },
        None => {
            assert(s.subrange(from, s.len() as int) =~= suf.subrange(0, suf.len() as int));
        },
    }
}

/// A piece without the separator, followed by the separator, splits off whole.
pub proof fn lemma_split2_prefix(x: Seq<u8>, rest: Seq<u8>, a: u8, b: u8)
    requires
        a != b,
        !has_pair2(x, a, b),
    ensures
        spec_split2(x + seq![a, b] + rest, a, b) == seq![x] + spec_split2(rest, a, b),
{
    let s = x + seq![a, b] + rest;
    let n = x.len() as int;
    assert(s[n] == a && s[n + 1] == b);
    assert(forall|k: int| #![trigger s[k]] 0 <= k < n ==> !(s[k] == a && s[k + 1] == b)) by {
        assert(forall|k: int| #![trigger x[k]] 0 <= k < n ==> s[k] == x[k]);
        assert(forall|k: int| #![trigger x[k]] 0 <= k && k + 1 < n ==> s[k + 1] == x[k + 1]);
    }
    lemma_find2_is(s, a, b, 0, n);
    lemma_split2_from_suffix(s, a, b, n + 2);
    assert(s.subrange(0, n) =~= x);
    assert(s.subrange(n + 2, s.len() as int) =~= rest);
    assert(spec_split2(s, a, b) =~= seq![x] + spec_split2(rest, a, b));
}

/// The pieces rejoined with the separator written between them.
pub open spec fn spec_join2(ls: Seq<Seq<u8>>, a: u8, b: u8) -> Seq<u8>
    decreases ls.len(),
{
    if ls.len() == 0 {
        seq![]
    } else if ls.len() == 1 {
        ls[0]
    } else {
        ls[0] + seq![a, b] + spec_join2(ls.drop_first(), a, b)
    }
}

/// Joining what splitting produced gives the original back.
pub proof fn lemma_join2_split2_from(s: Seq<u8>, a: u8, b: u8, from: int)
    requires
        0 <= from <= s.len(),
    ensures
        spec_join2(spec_split2_from(s, a, b, from), a, b) == s.subrange(from, s.len() as int),
    decreases s.len() - from,
{
    lemma_find2_props(s, a, b, from);
    match spec_find2(s, a, b, from) {
        Some(j) => {
            let rest = spec_split2_from(s, a, b, j + 2);
            lemma_split2_from_len(s, a, b, j + 2);
            let ls = seq![s.subrange(from, j)] + rest;
            assert(ls.len() >= 2);
            assert(ls.drop_first() =~= rest);
            lemma_join2_split2_from(s, a, b, j + 2);
            assert(s.subrange(from, s.len() as int) =~= s.subrange(from, j) + seq![a, b]
                + s.subrange(j + 2, s.len() as int));
        },
        None => {
        },
    }
}

/// Joining undoes splitting.
pub proof fn lemma_join2_split2(s: Seq<u8>, a: u8, b: u8)
    ensures
        spec_join2(spec_split2(s, a, b), a, b) == s,
{
    lemma_join2_split2_from(s, a, b, 0);
    assert(s.subrange(0, s.len() as int) =~= s);
}

/// Split `v` on the two-byte separator `a b`.
pub fn split2(v: &Vec<u8>, a: u8, b: u8) -> (r: Vec<Vec<u8>>)
    ensures
        r.deep_view() == spec_split2(v@, a, b),
        r@.len() >= 1,
{
    let mut parts: Vec<Vec<u8>> = Vec::new();
    let mut p: usize = 0;
    loop
        invariant
            p <= v.len(),
            spec_split2(v@, a, b) == parts.deep_view() + spec_split2_from(v@, a, b, p as int),
        decreases v@.len() - p,
    {
        let ghost old_dv = parts.deep_view();
        match find2(v, a, b, p) {
            Some(j) => {
                proof {
                    lemma_find2_props(v@, a, b, p as int);
                }
                let piece = subvec(v, p, j);
                parts.push(piece);
                proof {
                    assert(parts.deep_view() =~~= old_dv.push(piece@));
                    assert(old_dv.push(piece@) + spec_split2_from(v@, a, b, j + 2) =~~= old_dv + (
                    seq![piece@] + spec_split2_from(v@, a, b, j + 2)));
                }
                p = j + 2;
            },
            None => {
                let piece = subvec(v, p, v.len());
                parts.push(piece);
                proof {
                    assert(parts.deep_view() =~~= old_dv.push(piece@));
                    assert(old_dv.push(piece@) =~~= old_dv + seq![piece@]);
                    lemma_split2_from_len(v@, a, b, 0);
                }
                return parts;
            },
        }
    }
}

/// Append `src` to `dst`.
pub fn extend(dst: &mut Vec<u8>, src: &Vec<u8>)
    ensures
        final(dst)@ == old(dst)@ + src@,
{
    dst.extend_from_slice(src.as_slice());
}

/// Index of the first occurrence of the byte `c` in `s` at or after `from`.
pub open spec fn spec_find1(s: Seq<u8>, c: u8, from: int) -> Option<int>
    recommends
        0 <= from,
    decreases s.len() - from,
    when 0 <= from
{
    if from + 1 > s.len() {
        None
    } else if s[from] == c {
        Some(from)
    } else {
        spec_find1(s, c, from + 1)
    }
}

/// Bounds of what `spec_find1` returns.
pub proof fn lemma_find1_props(s: Seq<u8>, c: u8, from: int)
    requires
        0 <= from,
    ensures
        match spec_find1(s, c, from) {
            Some(j) => from <= j && j + 1 <= s.len() && s[j] == c,
            None => true,
        },
    decreases s.len() - from,
{
    if from + 1 > s.len() {
    } else if s[from] == c {
    } else {
        lemma_find1_props(s, c, from + 1);
    }
}

pub fn find1(s: &Vec<u8>, c: u8, from: usize) -> (r: Option<usize>)
    ensures
        match r {
            Some(j) => spec_find1(s@, c, from as int) == Some(j as int) && from <= j && j
                < s@.len(),
            None => spec_find1(s@, c, from as int) is None,
        },
{
    let mut i: usize = from;
    loop
        invariant
            from <= i,
            spec_find1(s@, c, from as int) == spec_find1(s@, c, i as int),
        decreases s.len() + 1 - i,
    {
        if i >= s.len() {
            return None;
        }
        if s[i] == c {
            return Some(i);
        }
        i += 1;
    }
}

/// The pieces of `s` from position `from` on, split on the byte `c`.
pub open spec fn spec_split1_from(s: Seq<u8>, c: u8, from: int) -> Seq<Seq<u8>>
    recommends
        0 <= from <= s.len(),
    decreases s.len() - from,
    when 0 <= from <= s.len()
    via spec_split1_from_dec
{
    match spec_find1(s, c, from) {
        Some(j) => seq![s.subrange(from, j)] + spec_split1_from(s, c, j + 1),
        None => seq![s.subrange(from, s.len() as int)],
    }
}

#[via_fn]
proof fn spec_split1_from_dec(s: Seq<u8>, c: u8, from: int) {
    lemma_find1_props(s, c, from);
}

/// The pieces of `s`, split on the byte `c`.
pub open spec fn spec_split1(s: Seq<u8>, c: u8) -> Seq<Seq<u8>> {
    spec_split1_from(s, c, 0)
}

/// Split `v` on the byte `c`.
pub fn split1(v: &Vec<u8>, c: u8) -> (r: Vec<Vec<u8>>)
    ensures
        r.deep_view() == spec_split1(v@, c),
{
    let mut parts: Vec<Vec<u8>> = Vec::new();
    let mut p: usize = 0;
    loop
        invariant
            p <= v.len(),
            spec_split1(v@, c) == parts.deep_view() + spec_split1_from(v@, c, p as int),
        decreases v@.len() - p,
    {
        let ghost old_dv = parts.deep_view();
        match find1(v, c, p) {
            Some(j) => {
                proof {
                    lemma_find1_props(v@, c, p as int);
                }
                let piece = subvec(v, p, j);
                parts.push(piece);
                proof {
                    assert(parts.deep_view() =~~= old_dv.push(piece@));
                    assert(old_dv.push(piece@) + spec_split1_from(v@, c, j + 1) =~~= old_dv + (
                    seq![piece@] + spec_split1_from(v@, c, j + 1)));
                }
                p = j + 1;
            },
            None => {
                let piece = subvec(v, p, v.len());
                parts.push(piece);
                proof {
                    assert(parts.deep_view() =~~= old_dv.push(piece@));
                    assert(old_dv.push(piece@) =~~= old_dv + seq![piece@]);
                }
                return parts;
            },
        }
    }
}

/// First position at or after `i` that does not hold whitespace, or the end.
pub open spec fn spec_skip_ws(s: Seq<u8>, i: int) -> int
    recommends
        0 <= i <= s.len(),
    decreases s.len() - i,
    when 0 <= i <= s.len()
{
    if i >= s.len() {
        s.len() as int
    } else if is_ws(s[i]) {
        spec_skip_ws(s, i + 1)
    } else {
        i
    }
}

pub proof fn lemma_skip_ws_props(s: Seq<u8>, i: int)
    requires
        0 <= i <= s.len(),
    ensures
        i <= spec_skip_ws(s, i) <= s.len(),
        forall|k: int| #![trigger s[k]] i <= k < spec_skip_ws(s, i) ==> is_ws(s[k]),
        spec_skip_ws(s, i) < s.len() ==> !is_ws(s[spec_skip_ws(s, i)]),
    decreases s.len() - i,
{
    if i >= s.len() {
    } else if is_ws(s[i]) {
        lemma_skip_ws_props(s, i + 1);
    }
}

/// The converse: the stated position is what the scan returns.
pub proof fn lemma_skip_ws_is(s: Seq<u8>, i: int, j: int)
    requires
        0 <= i <= j <= s.len(),
        forall|k: int| #![trigger s[k]] i <= k < j ==> is_ws(s[k]),
        j == s.len() || !is_ws(s[j]),
    ensures
        spec_skip_ws(s, i) == j,
    decreases j - i,
{
    if i < j {
        lemma_skip_ws_is(s, i + 1, j);
    }
}

/// First position at or after `i` that holds whitespace, or the end.
pub open spec fn spec_scan_tok(s: Seq<u8>, i: int) -> int
    recommends
        0 <= i <= s.len(),
    decreases s.len() - i,
    when 0 <= i <= s.len()
{
    if i >= s.len() {
        s.len() as int
    } else if !is_ws(s[i]) {
        spec_scan_tok(s, i + 1)
    } else {
        i
    }
}

pub proof fn lemma_scan_tok_props(s: Seq<u8>, i: int)
    requires
        0 <= i <= s.len(),
    ensures
        i <= spec_scan_tok(s, i) <= s.len(),
        forall|k: int| #![trigger s[k]] i <= k < spec_scan_tok(s, i) ==> !is_ws(s[k]),
        spec_scan_tok(s, i) < s.len() ==> is_ws(s[spec_scan_tok(s, i)]),
    decreases s.len() - i,
{
    if i >= s.len() {
    } else if !is_ws(s[i]) {
        lemma_scan_tok_props(s, i + 1);
    }
}

/// The converse: the stated position is what the scan returns.
pub proof fn lemma_scan_tok_is(s: Seq<u8>, i: int, j: int)
    requires
        0 <= i <= j <= s.len(),
        forall|k: int| #![trigger s[k]] i <= k < j ==> !is_ws(s[k]),
        j == s.len() || is_ws(s[j]),
    ensures
        spec_scan_tok(s, i) == j,
    decreases j - i,
{
    if i < j {
        lemma_scan_tok_is(s, i + 1, j);
    }
}

pub fn skip_ws(v: &Vec<u8>, i: usize) -> (r: usize)
    requires
        i <= v@.len(),
    ensures
        r as int == spec_skip_ws(v@, i as int),
        i <= r <= v@.len(),
{
    let mut p: usize = i;
    while p < v.len() && is_ws_byte(v[p])
        invariant
            i <= p <= v.len(),
            spec_skip_ws(v@, i as int) == spec_skip_ws(v@, p as int),
        decreases v@.len() - p,
    {
        p += 1;
    }
    p
}

pub fn scan_tok(v: &Vec<u8>, i: usize) -> (r: usize)
    requires
        i <= v@.len(),
    ensures
        r as int == spec_scan_tok(v@, i as int),
        i <= r <= v@.len(),
{
    let mut p: usize = i;
    while p < v.len() && !is_ws_byte(v[p])
        invariant
            i <= p <= v.len(),
            spec_scan_tok(v@, i as int) == spec_scan_tok(v@, p as int),
        decreases v@.len() - p,
    {
        p += 1;
    }
    p
}

/// The maximal whitespace-free runs of `s` from position `i` on.
pub open spec fn spec_tokens_from(s: Seq<u8>, i: int) -> Seq<Seq<u8>>
    recommends
        0 <= i <= s.len(),
    decreases s.len() - i,
    when 0 <= i <= s.len()
    via spec_tokens_from_dec
{
    let j = spec_skip_ws(s, i);
    if j >= s.len() {
        seq![]
    } else {
        let k = spec_scan_tok(s, j);
        seq![s.subrange(j, k)] + spec_tokens_from(s, k)
    }
}

#[via_fn]
proof fn spec_tokens_from_dec(s: Seq<u8>, i: int) {
    lemma_skip_ws_props(s, i);
    let j = spec_skip_ws(s, i);
    if j < s.len() {
        lemma_scan_tok_props(s, j);
    }
}

/// The maximal whitespace-free runs of `s`, in order.
pub open spec fn spec_tokens(s: Seq<u8>) -> Seq<Seq<u8>> {
    spec_tokens_from(s, 0)
}

/// Split `v` into its whitespace-separated tokens.
pub fn split_ws(v: &Vec<u8>) -> (r: Vec<Vec<u8>>)
    ensures
        r.deep_view() == spec_tokens(v@),
{
    let mut toks: Vec<Vec<u8>> = Vec::new();
    let mut p: usize = 0;
    loop
        invariant
            p <= v.len(),
            spec_tokens(v@) == toks.deep_view() + spec_tokens_from(v@, p as int),
        decreases v@.len() - p,
    {
        let ghost old_dv = toks.deep_view();
        let j = skip_ws(v, p);
        if j >= v.len() {
            proof {
                assert(toks.deep_view() + spec_tokens_from(v@, p as int) =~~= toks.deep_view());
            }
            return toks;
        }
        let k = scan_tok(v, j);
        proof {
            lemma_scan_tok_props(v@, j as int);
        }
        let piece = subvec(v, j, k);
        toks.push(piece);
        proof {
            assert(toks.deep_view() =~~= old_dv.push(piece@));
            assert(old_dv.push(piece@) + spec_tokens_from(v@, k as int) =~~= old_dv + (seq![piece@]
                + spec_tokens_from(v@, k as int)));
        }
        p = k;
    }
}

/// Where the trailing whitespace of `s` begins.
pub open spec fn spec_trim_end(s: Seq<u8>) -> int
    decreases s.len(),
{
    if s.len() == 0 {
        0
    } else if is_ws(s[s.len() - 1]) {
        spec_trim_end(s.drop_last())
    } else {
        s.len() as int
    }
}

pub proof fn lemma_trim_end_props(s: Seq<u8>)
    ensures
        0 <= spec_trim_end(s) <= s.len(),
        forall|k: int| #![trigger s[k]] spec_trim_end(s) <= k < s.len() ==> is_ws(s[k]),
        spec_trim_end(s) > 0 ==> !is_ws(s[spec_trim_end(s) - 1]),
    decreases s.len(),
{
    if s.len() == 0 {
    } else if is_ws(s[s.len() - 1]) {
        lemma_trim_end_props(s.drop_last());
        assert(forall|k: int| #![trigger s[k]] 0 <= k < s.len() - 1 ==> s.drop_last()[k] == s[k]);
    }
}

/// `s` without its leading and trailing whitespace.
pub open spec fn spec_trim(s: Seq<u8>) -> Seq<u8> {
    let a = spec_skip_ws(s, 0);
    let b = spec_trim_end(s);
    if a <= b {
        s.subrange(a, b)
    } else {
        seq![]
    }
}

/// Remove leading and trailing whitespace from `v`.
pub fn trim(v: &Vec<u8>) -> (r: Vec<u8>)
    ensures
        r@ == spec_trim(v@),
{
    proof {
        lemma_skip_ws_props(v@, 0);
        lemma_trim_end_props(v@);
        assert(v@.subrange(0, v@.len() as int) =~= v@);
    }
    let a = skip_ws(v, 0);
    let mut b: usize = v.len();
    while b > 0 && is_ws_byte(v[b - 1])
        invariant
            b <= v.len(),
            spec_trim_end(v@) == spec_trim_end(v@.subrange(0, b as int)),
        decreases b,
    {
        proof {
            assert(v@.subrange(0, b as int).drop_last() =~= v@.subrange(0, b as int - 1));
        }
        b -= 1;
    }
    proof {
        assert(v@.subrange(0, v@.len() as int) =~= v@);
        if b > 0 {
            assert(v@.subrange(0, b as int).last() == v@[b as int - 1]);
        }
        assert(spec_trim_end(v@) == b as int);
    }
    if a <= b {
        subvec(v, a, b)
    } else {
        let r: Vec<u8> = Vec::new();
        proof {
            assert(r@ =~= spec_trim(v@));
        }
        r
    }
}

/// The decimal digits of `n`, most significant first.
pub open spec fn spec_dec(n: nat) -> Seq<u8>
    decreases n,
{
    if n < 10 {
        seq![(48 + n) as u8]
    } else {
        spec_dec(n / 10).push((48 + n % 10) as u8)
    }
}

/// Render `n` in decimal.
pub fn dec_bytes(n: usize) -> (r: Vec<u8>)
    ensures
        r@ == spec_dec(n as nat),
    decreases n,
{
    if n < 10 {
        let r: Vec<u8> = vec![48 + (n as u8)];
        proof {
            assert(r@ =~= spec_dec(n as nat));
        }
        r
    } else {
        let mut r = dec_bytes(n / 10);
        r.push(48 + ((n % 10) as u8));
        r
    }
}

} // verus!
