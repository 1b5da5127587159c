//! The laws of the protocol layer, stated over the specification functions
//! and proved once and for all: parsing inverts serialization, and each
//! route yields the reply its predicate owes.

use vstd::prelude::*;

use crate::bytestr::has_pair2;
use crate::bytestr::is_ws;
use crate::bytestr::lemma_find2_is;
use crate::bytestr::lemma_join2_split2;
use crate::bytestr::lemma_scan_tok_is;
use crate::bytestr::lemma_skip_ws_is;
use crate::bytestr::lemma_split2_prefix;
use crate::bytestr::spec_split2;
use crate::bytestr::spec_tokens;
use crate::bytestr::spec_tokens_from;
use crate::bytestr::spec_skip_ws;
use crate::bytestr::spec_scan_tok;
use crate::bytestr::spec_find2;
use crate::bytestr::lemma_split2_from_len;
use crate::headers::crlf;
use crate::request::ParseErrorView;
use crate::request::ReqView;
use crate::request::spec_parse;
use crate::request::spec_parse_headers;
use crate::request::spec_req_wire;
use crate::headers::colon_space;
use crate::headers::spec_find_key;
use crate::headers::spec_header_lines;
use crate::headers::spec_upsert;
use crate::bytestr::spec_dec;
use crate::bytestr::spec_starts_with;
use crate::dispatch::ActionView;
use crate::dispatch::FsOpView;
use crate::dispatch::echo_prefix;
use crate::dispatch::files_prefix;
use crate::dispatch::root_path;
use crate::dispatch::spec_dispatch;
use crate::dispatch::user_agent_key;
use crate::dispatch::user_agent_path;
use crate::encoding::gzip_of;
use crate::encoding::gzip_token;
use crate::encoding::spec_accepts_gzip;
use crate::encoding::spec_negotiated;
use crate::headers::spec_lookup;
use crate::http::ContentType;
use crate::http::HttpMethod;
use crate::http::Status;
use crate::http::TextContentType;
use crate::http::spec_content_type_bytes;
use crate::response::ContentView;
use crate::response::content_encoding_key;
use crate::response::content_length_key;
use crate::response::content_type_key;
use crate::response::spec_derived_headers;
use crate::http::spec_method_of;
use crate::http::spec_method_token;

verus! {

/// No byte of `s` is whitespace.
pub open spec fn no_ws(s: Seq<u8>) -> bool {
    forall|i: int| 0 <= i < s.len() ==> !is_ws(#[trigger] s[i])
}

/// A header entry that survives the trip over the wire: neither side holds
/// the two-byte line terminator (a lone carriage return or line feed is
/// fine), and the name does not itself contain the separator.
pub open spec fn header_wf(k: Seq<u8>, v: Seq<u8>) -> bool {
    !has_pair2(k, 13, 10) && !has_pair2(v, 13, 10) && !has_pair2(k, 58, 32)
}

/// No two entries share a name.
pub open spec fn distinct_keys(es: Seq<(Seq<u8>, Seq<u8>)>) -> bool {
    forall|i: int, j: int| 0 <= i < j < es.len() ==> (#[trigger] es[i]).0 != (#[trigger] es[j]).0
}

/// Tokenizing `A SP B SP C` with whitespace-free nonempty `A`, `B`, `C`
/// recovers exactly the three tokens.
pub proof fn lemma_tokens_three(aa: Seq<u8>, bb: Seq<u8>, cc: Seq<u8>)
    requires
        aa.len() > 0,
        no_ws(aa),
        bb.len() > 0,
        no_ws(bb),
        cc.len() > 0,
        no_ws(cc),
    ensures
        spec_tokens(aa + seq![32u8] + bb + seq![32u8] + cc) == seq![aa, bb, cc],
{
    let s = aa + seq![32u8] + bb + seq![32u8] + cc;
    let n1 = aa.len() as int;
    let n2 = n1 + 1 + bb.len() as int;
    let total = s.len() as int;
    assert(total == n2 + 1 + cc.len());
    assert(forall|k: int| 0 <= k < n1 ==> #[trigger] s[k] == aa[k]);
    assert(s[n1] == 32);
    assert(forall|k: int| n1 + 1 <= k < n2 ==> #[trigger] s[k] == bb[k - n1 - 1]);
    assert(s[n2] == 32);
    assert(forall|k: int| n2 + 1 <= k < total ==> #[trigger] s[k] == cc[k - n2 - 1]);

    lemma_skip_ws_is(s, 0, 0);
    lemma_scan_tok_is(s, 0, n1);
    assert(spec_skip_ws(s, 0) == 0 && spec_scan_tok(s, 0) == n1);
    lemma_skip_ws_is(s, n1, n1 + 1);
    lemma_scan_tok_is(s, n1 + 1, n2);
    lemma_skip_ws_is(s, n2, n2 + 1);
    lemma_scan_tok_is(s, n2 + 1, total);
    lemma_skip_ws_is(s, total, total);

    assert(spec_tokens_from(s, total) =~= Seq::<Seq<u8>>::empty());
    assert(spec_tokens_from(s, n2) =~= seq![s.subrange(n2 + 1, total)] + spec_tokens_from(
        s,
        total,
    ));
    assert(spec_tokens_from(s, n1) =~= seq![s.subrange(n1 + 1, n2)] + spec_tokens_from(s, n2));
    assert(spec_tokens_from(s, 0) =~= seq![s.subrange(0, n1)] + spec_tokens_from(s, n1));
    assert(s.subrange(0, n1) =~= aa);
    assert(s.subrange(n1 + 1, n2) =~= bb);
    assert(s.subrange(n2 + 1, total) =~= cc);
    assert(spec_tokens(s) =~~= seq![aa, bb, cc]);
}

/// A method's wire token names that method back.
pub proof fn lemma_method_token_round_trip(m: HttpMethod)
    ensures
        spec_method_of(spec_method_token(m)) == Some(m),
{
}

/// No entry at or after `from` holds the name `k`, so the scan fails.
pub proof fn lemma_find_key_none(es: Seq<(Seq<u8>, Seq<u8>)>, k: Seq<u8>, from: int)
    requires
        0 <= from,
        forall|i: int| from <= i < es.len() ==> (#[trigger] es[i]).0 != k,
    ensures
        spec_find_key(es, k, from) is None,
    decreases es.len() - from,
{
    if from < es.len() {
        lemma_find_key_none(es, k, from + 1);
    }
}

/// What the name scan finds: an entry holding `k` when it succeeds, and no
/// entry holding `k` when it fails.
pub proof fn lemma_find_key_props(es: Seq<(Seq<u8>, Seq<u8>)>, k: Seq<u8>, from: int)
    requires
        0 <= from,
    ensures
        match spec_find_key(es, k, from) {
            Some(i) => from <= i < es.len() && es[i].0 == k,
            None => forall|i: int| from <= i < es.len() ==> (#[trigger] es[i]).0 != k,
        },
    decreases es.len() - from,
{
    if from < es.len() && es[from].0 != k {
        lemma_find_key_props(es, k, from + 1);
    }
}

/// Two header lists with pairwise distinct names that hold the same entries
/// — in whatever order — store the same value under every name.
pub proof fn lemma_lookup_permutation(
    es1: Seq<(Seq<u8>, Seq<u8>)>,
    es2: Seq<(Seq<u8>, Seq<u8>)>,
    k: Seq<u8>,
)
    requires
        distinct_keys(es1),
        distinct_keys(es2),
        es1.to_multiset() == es2.to_multiset(),
    ensures
        spec_lookup(es1, k) == spec_lookup(es2, k),
{
    lemma_lookup_permutation_half(es1, es2, k);
    lemma_lookup_permutation_half(es2, es1, k);
}

/// One direction of the permutation argument: a name stored in the first
/// list is stored in the second, with the same value.
proof fn lemma_lookup_permutation_half(
    es1: Seq<(Seq<u8>, Seq<u8>)>,
    es2: Seq<(Seq<u8>, Seq<u8>)>,
    k: Seq<u8>,
)
    requires
        distinct_keys(es2),
        es1.to_multiset() == es2.to_multiset(),
    ensures
        spec_lookup(es1, k) matches Some(v) ==> spec_lookup(es2, k) == Some(v),
{
    broadcast use vstd::seq_lib::group_to_multiset_ensures;

    lemma_find_key_props(es1, k, 0);
    lemma_find_key_props(es2, k, 0);
    match spec_find_key(es1, k, 0) {
        Some(i) => {
            let e = es1[i];
            assert(es1.contains(e));
            assert(es2.to_multiset().count(e) > 0);
            assert(es2.contains(e));
            let j = choose|j: int| 0 <= j < es2.len() && es2[j] == e;
            match spec_find_key(es2, k, 0) {
                Some(i2) => {
                    assert(es2[i2].0 == k && es2[j].0 == k);
                    if i2 != j {
                        assert(false);
                    }
                },
                None => {
                    assert(es2[j].0 != k);
                },
            }
        },
        None => {},
    }
}

/// The entries of `es` stored one after the other into `acc`.
pub open spec fn fold_upserts(
    acc: Seq<(Seq<u8>, Seq<u8>)>,
    es: Seq<(Seq<u8>, Seq<u8>)>,
) -> Seq<(Seq<u8>, Seq<u8>)>
    decreases es.len(),
{
    if es.len() == 0 {
        acc
    } else {
        fold_upserts(spec_upsert(acc, es[0].0, es[0].1), es.drop_first())
    }
}

/// Storing entries whose names are fresh and pairwise distinct appends them.
pub proof fn lemma_fold_upserts_app(acc: Seq<(Seq<u8>, Seq<u8>)>, es: Seq<(Seq<u8>, Seq<u8>)>)
    requires
        distinct_keys(acc + es),
    ensures
        fold_upserts(acc, es) == acc + es,
    decreases es.len(),
{
    if es.len() == 0 {
        assert(fold_upserts(acc, es) =~= acc + es);
    } else {
        let whole = acc + es;
        assert forall|j: int| 0 <= j < acc.len() implies (#[trigger] acc[j]).0 != es[0].0 by {
            assert(whole[j] == acc[j]);
            assert(whole[acc.len() as int] == es[0]);
            assert(whole[j].0 != whole[acc.len() as int].0);
        }
        lemma_find_key_none(acc, es[0].0, 0);
        let acc1 = spec_upsert(acc, es[0].0, es[0].1);
        assert(acc1 =~~= acc.push(es[0]));
        assert(acc1 + es.drop_first() =~~= acc + es);
        lemma_fold_upserts_app(acc1, es.drop_first());
    }
}

/// Where the separator sits in a well-formed header line: right after the
/// name, and nowhere earlier.
pub proof fn lemma_header_line_find(k: Seq<u8>, v: Seq<u8>)
    requires
        !has_pair2(k, 58, 32),
    ensures
        spec_find2(k + colon_space() + v, 58, 32, 0) == Some(k.len() as int),
{
    let line = k + colon_space() + v;
    let n = k.len() as int;
    assert(line[n] == 58 && line[n + 1] == 32);
    assert forall|i: int| #![trigger line[i]] 0 <= i < n implies !(line[i] == 58 && line[i + 1]
        == 32) by {
        if line[i] == 58 && line[i + 1] == 32 {
            if i + 1 < n {
                assert(k[i] == 58 && k[i + 1] == 32 && i + 2 <= k.len());
                assert(has_pair2(k, 58, 32));
            } else {
                assert(line[i + 1] == 58);
            }
        }
    }
    lemma_find2_is(line, 58, 32, 0, n);
}

/// The lines a header block contributes on the wire, in order.
pub open spec fn hline_seq(es: Seq<(Seq<u8>, Seq<u8>)>) -> Seq<Seq<u8>> {
    Seq::new(es.len(), |i: int| es[i].0 + colon_space() + es[i].1)
}

/// Splitting a block of terminator-free header lines followed by anything
/// yields those lines, then the split of what follows.
pub proof fn lemma_split_hblock(es: Seq<(Seq<u8>, Seq<u8>)>, tail: Seq<u8>)
    requires
        forall|i: int|
            0 <= i < es.len() ==> !has_pair2((#[trigger] es[i]).0, 13, 10) && !has_pair2(
                es[i].1,
                13,
                10,
            ),
    ensures
        spec_split2(spec_header_lines(es) + tail, 13, 10) == hline_seq(es) + spec_split2(
            tail,
            13,
            10,
        ),
    decreases es.len(),
{
    if es.len() == 0 {
        assert(spec_header_lines(es) + tail =~= tail);
        assert(hline_seq(es) + spec_split2(tail, 13, 10) =~= spec_split2(tail, 13, 10));
    } else {
        let line0 = es[0].0 + colon_space() + es[0].1;
        let rest = es.drop_first();
        assert(!has_pair2(line0, 13, 10)) by {
            let kl = es[0].0.len() as int;
            assert forall|i: int|
                #![trigger line0[i]]
                0 <= i && i + 2 <= line0.len() implies !(line0[i] == 13 && line0[i + 1] == 10) by {
                if line0[i] == 13 && line0[i + 1] == 10 {
                    if i + 1 < kl {
                        assert(es[0].0[i] == 13 && es[0].0[i + 1] == 10 && i + 2 <= es[0].0.len());
                        assert(has_pair2(es[0].0, 13, 10));
                    } else if i == kl - 1 {
                        assert(line0[i + 1] == 58);
                    } else if i == kl {
                        assert(line0[i] == 58);
                    } else if i == kl + 1 {
                        assert(line0[i] == 32);
                    } else {
                        assert(es[0].1[i - kl - 2] == 13 && es[0].1[i - kl - 1] == 10);
                        assert(has_pair2(es[0].1, 13, 10));
                    }
                }
            }
        }
        assert(spec_header_lines(es) + tail =~= line0 + seq![13u8, 10u8] + (spec_header_lines(
            rest,
        ) + tail));
        lemma_split2_prefix(line0, spec_header_lines(rest) + tail, 13, 10);
        assert(forall|i: int|
            0 <= i < rest.len() ==> !has_pair2((#[trigger] rest[i]).0, 13, 10) && !has_pair2(
                rest[i].1,
                13,
                10,
            )) by {
            assert(forall|i: int| 0 <= i < rest.len() ==> #[trigger] rest[i] == es[i + 1]);
        }
        lemma_split_hblock(rest, tail);
        assert(hline_seq(es) =~~= seq![line0] + hline_seq(rest));
        assert(spec_split2(spec_header_lines(es) + tail, 13, 10) =~~= hline_seq(es) + spec_split2(
            tail,
            13,
            10,
        ));
    }
}

/// A line of three whitespace-free tokens joined by spaces holds no
/// line-terminator pair.
pub proof fn lemma_token_line_no_crlf(aa: Seq<u8>, bb: Seq<u8>, cc: Seq<u8>)
    requires
        no_ws(aa),
        no_ws(bb),
        no_ws(cc),
    ensures
        !has_pair2(aa + seq![32u8] + bb + seq![32u8] + cc, 13, 10),
{
    let line = aa + seq![32u8] + bb + seq![32u8] + cc;
    let p1 = aa.len() as int;
    let p2 = p1 + 1 + bb.len() as int;
    assert forall|i: int| #![trigger line[i]] 0 <= i < line.len() implies line[i] != 13 by {
        if i < p1 {
            assert(line[i] == aa[i] && !is_ws(aa[i]));
        } else if i == p1 {
            assert(line[i] == 32);
        } else if i < p2 {
            assert(line[i] == bb[i - p1 - 1] && !is_ws(bb[i - p1 - 1]));
        } else if i == p2 {
            assert(line[i] == 32);
        } else {
            assert(line[i] == cc[i - p2 - 1] && !is_ws(cc[i - p2 - 1]));
        }
    }
}

/// Reading a blank-terminated block of well-formed header lines stores
/// exactly its entries, in order, and stops just past the blank line.
pub proof fn lemma_parse_headers_block(
    lines: Seq<Seq<u8>>,
    i: int,
    acc: Seq<(Seq<u8>, Seq<u8>)>,
    es: Seq<(Seq<u8>, Seq<u8>)>,
)
    requires
        1 <= i,
        i + es.len() < lines.len(),
        forall|k: int|
            0 <= k < es.len() ==> lines[i + k] == (#[trigger] es[k]).0 + colon_space() + es[k].1,
        lines[i + es.len()].len() == 0,
        forall|k: int| 0 <= k < es.len() ==> header_wf((#[trigger] es[k]).0, es[k].1),
    ensures
        spec_parse_headers(lines, i, acc) == Ok::<(Seq<(Seq<u8>, Seq<u8>)>, Option<int>), Seq<u8>>(
            (fold_upserts(acc, es), Some(i + es.len() + 1)),
        ),
    decreases es.len(),
{
    if es.len() > 0 {
        let k0 = es[0].0;
        let v0 = es[0].1;
        let line = lines[i];
        assert(line == k0 + colon_space() + v0);
        assert(line.len() == k0.len() + 2 + v0.len());
        lemma_header_line_find(k0, v0);
        let j = k0.len() as int;
        assert(line.subrange(0, j) =~= k0);
        assert(line.subrange(j + 2, line.len() as int) =~= v0);
        let acc1 = spec_upsert(acc, k0, v0);
        let rest = es.drop_first();
        assert(forall|k: int| 0 <= k < rest.len() ==> #[trigger] rest[k] == es[k + 1]);
        lemma_parse_headers_block(lines, i + 1, acc1, rest);
        assert(spec_parse_headers(lines, i, acc) == spec_parse_headers(lines, i + 1, acc1));
        assert(fold_upserts(acc, es) == fold_upserts(acc1, rest));
    }
}

/// A request that the wire can carry faithfully: a nonempty,
/// whitespace-free path and version, and well-formed headers with pairwise
/// distinct names. The body, and a header name or value around its
/// separator, may hold any bytes short of the CRLF pair; the body may hold
/// even that.
pub open spec fn req_serializable(m: ReqView) -> bool {
    &&& m.path.len() > 0
    &&& no_ws(m.path)
    &&& m.http_version.len() > 0
    &&& no_ws(m.http_version)
    &&& forall|i: int|
        0 <= i < m.headers.len() ==> header_wf((#[trigger] m.headers[i]).0, m.headers[i].1)
    &&& distinct_keys(m.headers)
}

/// Parsing inverts serialization: for every request the wire can carry,
/// reading its wire form back recovers the same method, path, version,
/// header entries and body. Header parsing is thereby idempotent: the
/// mapping a reconstructed byte stream parses to is the mapping it came
/// from.
pub proof fn lemma_parse_round_trip(m: ReqView)
    requires
        req_serializable(m),
    ensures
        spec_parse(spec_req_wire(m)) == Ok::<ReqView, ParseErrorView>(m),
{
    let tok = spec_method_token(m.method);
    let line0 = tok + seq![32u8] + m.path + seq![32u8] + m.http_version;
    let tail: Seq<u8> = match m.body {
        Some(b) => crlf() + b,
        None => seq![],
    };
    let s = spec_req_wire(m);
    assert(s =~= line0 + seq![13u8, 10u8] + (spec_header_lines(m.headers) + tail));

    assert(no_ws(tok));
    lemma_token_line_no_crlf(tok, m.path, m.http_version);
    lemma_split2_prefix(line0, spec_header_lines(m.headers) + tail, 13, 10);
    lemma_split_hblock(m.headers, tail);

    let hs = hline_seq(m.headers);
    let hn = m.headers.len() as int;
    let lines = spec_split2(s, 13, 10);
    let tl = spec_split2(tail, 13, 10);
    assert(lines == seq![line0] + (hs + tl));

    match m.body {
        Some(b) => {
            assert(tail =~= Seq::<u8>::empty() + seq![13u8, 10u8] + b);
            assert(!has_pair2(Seq::<u8>::empty(), 13, 10));
            lemma_split2_prefix(Seq::<u8>::empty(), b, 13, 10);
            assert(tl == seq![Seq::<u8>::empty()] + spec_split2(b, 13, 10));
            lemma_split2_from_len(b, 13, 10, 0);
        },
        None => {
            assert(tl =~~= seq![Seq::<u8>::empty()]);
        },
    }

    // The request line tokenizes back into its three parts.
    assert(lines[0] == line0);
    lemma_tokens_three(tok, m.path, m.http_version);
    lemma_method_token_round_trip(m.method);
    let parts = spec_tokens(lines[0]);
    assert(parts == seq![tok, m.path, m.http_version]);
    assert(parts[0] == tok && parts[1] == m.path && parts[2] == m.http_version);

    // The header block parses back into its entries.
    assert(forall|k: int|
        0 <= k < hn ==> lines[1 + k] == (#[trigger] m.headers[k]).0 + colon_space()
            + m.headers[k].1) by {
        assert(forall|k: int| 0 <= k < hn ==> lines[1 + k] == hs[k]);
    }
    assert(lines[1 + hn].len() == 0);
    lemma_parse_headers_block(lines, 1, Seq::empty(), m.headers);
    assert(Seq::<(Seq<u8>, Seq<u8>)>::empty() + m.headers =~= m.headers);
    lemma_fold_upserts_app(Seq::empty(), m.headers);
    assert(spec_parse_headers(lines, 1, Seq::empty()) == Ok::<
        (Seq<(Seq<u8>, Seq<u8>)>, Option<int>),
        Seq<u8>,
    >((m.headers, Some(hn + 2))));

    // The body joins back out of the remaining lines.
    match m.body {
        Some(b) => {
            assert(lines.len() == hn + 2 + spec_split2(b, 13, 10).len());
            assert(lines.skip(hn + 2) =~~= spec_split2(b, 13, 10));
            lemma_join2_split2(b, 13, 10);
        },
        None => {
            assert(lines.len() == hn + 2);
        },
    }

    match spec_parse(s) {
        Ok(res) => {
            assert(res.method == m.method && res.path == m.path && res.http_version
                == m.http_version && res.headers == m.headers && res.body == m.body);
            assert(res == m);
        },
        Err(_) => {
            assert(false);
        },
    }
}

/// Whatever the header block and body hold, a wire form that opens with
/// the line `METHOD SP path SP version CRLF` — the tokens nonempty and
/// whitespace-free — parses, when it parses at all, to exactly that method,
/// path and version.
pub proof fn lemma_request_line_tokens(m: HttpMethod, p: Seq<u8>, v: Seq<u8>, rest: Seq<u8>)
    requires
        p.len() > 0,
        no_ws(p),
        v.len() > 0,
        no_ws(v),
    ensures
        spec_parse(
            spec_method_token(m) + seq![32u8] + p + seq![32u8] + v + seq![13u8, 10u8] + rest,
        ) matches Ok(r) ==> r.method == m && r.path == p && r.http_version == v,
{
    let tok = spec_method_token(m);
    let line0 = tok + seq![32u8] + p + seq![32u8] + v;
    let s = tok + seq![32u8] + p + seq![32u8] + v + seq![13u8, 10u8] + rest;
    assert(s =~= line0 + seq![13u8, 10u8] + rest);
    assert(no_ws(tok));
    lemma_token_line_no_crlf(tok, p, v);
    lemma_split2_prefix(line0, rest, 13, 10);
    let lines = spec_split2(s, 13, 10);
    assert(lines[0] == line0);
    lemma_tokens_three(tok, p, v);
    lemma_method_token_round_trip(m);
}

/// `GET /` — and any method on `/` — replies `200` with no content, no
/// `Content-Type`, no `Content-Length` and no body, whatever encodings the
/// client accepts.
pub proof fn lemma_root_route(r: ReqView, root: Seq<u8>, s2: Status, c2: Option<ContentView>)
    requires
        r.path == root_path(),
        spec_negotiated(spec_accepts_gzip(r.headers), Status::Okay, None, s2, c2),
    ensures
        spec_dispatch(r, root) == ActionView::Reply(Status::Okay, None::<ContentView>),
        s2 == Status::Okay,
        c2 is None,
        spec_derived_headers(c2) == Seq::<(Seq<u8>, Seq<u8>)>::empty(),
{
    assert(spec_derived_headers(c2) =~= Seq::<(Seq<u8>, Seq<u8>)>::empty());
}

/// `/echo/{s}` replies `200` with a `text/plain` content whose body is `s`
/// byte for byte; when the client does not accept gzip, the response keeps
/// that body and carries exactly `Content-Type: text/plain` and
/// `Content-Length: len(s)`.
pub proof fn lemma_echo_route(
    r: ReqView,
    root: Seq<u8>,
    s: Seq<u8>,
    s2: Status,
    c2: Option<ContentView>,
)
    requires
        r.path == echo_prefix() + s,
        !spec_accepts_gzip(r.headers),
        spec_negotiated(
            spec_accepts_gzip(r.headers),
            Status::Okay,
            Some(
                ContentView {
                    content_type: ContentType::Text(TextContentType::Plain),
                    body: s,
                    encoding: None,
                },
            ),
            s2,
            c2,
        ),
    ensures
        spec_dispatch(r, root) == ActionView::Reply(
            Status::Okay,
            Some(
                ContentView {
                    content_type: ContentType::Text(TextContentType::Plain),
                    body: s,
                    encoding: None,
                },
            ),
        ),
        s2 == Status::Okay,
        c2 == Some(
            ContentView {
                content_type: ContentType::Text(TextContentType::Plain),
                body: s,
                encoding: None,
            },
        ),
        spec_derived_headers(c2) == seq![
            (content_type_key(), spec_content_type_bytes(ContentType::Text(TextContentType::Plain))),
            (content_length_key(), spec_dec(s.len())),
        ],
{
    assert(r.path.len() == 6 + s.len());
    assert(r.path[1] == 101);
    assert(r.path != root_path());
    assert(r.path != user_agent_path()) by {
        assert(user_agent_path()[1] == 117);
    }
    assert(spec_starts_with(r.path, echo_prefix())) by {
        assert(r.path.subrange(0, 6) =~= echo_prefix());
    }
    assert(r.path.skip(6) =~= s);
}

/// `/user-agent` echoes the `User-Agent` header as a `text/plain` body, and
/// replies `500` with no content when that header is absent.
pub proof fn lemma_user_agent_route(r: ReqView, root: Seq<u8>)
    requires
        r.path == user_agent_path(),
    ensures
        spec_dispatch(r, root) == match spec_lookup(r.headers, user_agent_key()) {
            Some(v) => ActionView::Reply(
                Status::Okay,
                Some(
                    ContentView {
                        content_type: ContentType::Text(TextContentType::Plain),
                        body: v,
                        encoding: None,
                    },
                ),
            ),
            None => ActionView::Reply(Status::InternalServerError, None::<ContentView>),
        },
{
    assert(r.path != root_path());
}

/// A `POST /files/{name}` with body `B` and a `GET /files/{name}` target
/// the very same file path, with `B` the bytes written: what the write
/// stored is what the read is asked for.
pub proof fn lemma_files_round_trip(w: ReqView, g: ReqView, root: Seq<u8>, b: Seq<u8>)
    requires
        spec_starts_with(w.path, files_prefix()),
        w.method == HttpMethod::Post,
        w.body == Some(b),
        g.path == w.path,
        g.method == HttpMethod::Get,
        g.headers == w.headers,
    ensures
        spec_dispatch(w, root) == ActionView::Fs(
            FsOpView::WriteFile(root + w.path.skip(7), b),
        ),
        spec_dispatch(g, root) == ActionView::Fs(FsOpView::ReadFile(root + w.path.skip(7))),
{
    lemma_files_path_shape(w.path);
}

/// A path under `/files/` matches no earlier route predicate.
pub proof fn lemma_files_path_shape(p: Seq<u8>)
    requires
        spec_starts_with(p, files_prefix()),
    ensures
        p != root_path(),
        p != user_agent_path(),
        !spec_starts_with(p, echo_prefix()),
{
    assert(p.subrange(0, 7)[1] == p[1]);
    assert(p[1] == 102);
    if p == user_agent_path() {
        assert(p[1] == 117);
    }
    if spec_starts_with(p, echo_prefix()) {
        assert(p.subrange(0, 6)[1] == p[1]);
        assert(p[1] == 101);
    }
}

/// A failed read of `/files/{name}` replies `404` with no content, no
/// headers and no body, whatever the root directory held otherwise.
pub proof fn lemma_files_missing(
    r: ReqView,
    root: Seq<u8>,
    s2: Status,
    c2: Option<ContentView>,
)
    requires
        spec_starts_with(r.path, files_prefix()),
        r.method == HttpMethod::Get,
        spec_negotiated(spec_accepts_gzip(r.headers), Status::NotFound, None, s2, c2),
    ensures
        spec_dispatch(r, root) == ActionView::Fs(FsOpView::ReadFile(root + r.path.skip(7))),
        s2 == Status::NotFound,
        c2 is None,
        spec_derived_headers(c2) == Seq::<(Seq<u8>, Seq<u8>)>::empty(),
{
    lemma_files_path_shape(r.path);
    assert(spec_derived_headers(c2) =~= Seq::<(Seq<u8>, Seq<u8>)>::empty());
}

/// When the client accepts gzip and content exists, the response keeps the
/// dispatched status, its body is the compressed bytes, and it carries
/// exactly `Content-Type`, a `Content-Length` that measures the compressed
/// body, and `Content-Encoding: gzip`.
pub proof fn lemma_gzip_applied(
    st: Status,
    c: ContentView,
    s2: Status,
    c2: Option<ContentView>,
)
    requires
        spec_negotiated(true, st, Some(c), s2, c2),
    ensures
        s2 == st,
        c2 == Some(
            ContentView {
                content_type: c.content_type,
                body: gzip_of(c.body),
                encoding: Some(gzip_token()),
            },
        ),
        spec_derived_headers(c2) == seq![
            (content_type_key(), spec_content_type_bytes(c.content_type)),
            (content_length_key(), spec_dec(gzip_of(c.body).len())),
            (content_encoding_key(), gzip_token()),
        ],
{
    assert(spec_derived_headers(c2) =~= seq![
        (content_type_key(), spec_content_type_bytes(c.content_type)),
        (content_length_key(), spec_dec(gzip_of(c.body).len())),
        (content_encoding_key(), gzip_token()),
    ]);
}

/// When the client does not accept gzip, the dispatched status and content
/// pass through untouched, and a content the dispatcher produced — which
/// never carries an encoding — yields exactly `Content-Type` and
/// `Content-Length`, with no `Content-Encoding` header.
pub proof fn lemma_no_gzip_passthrough(
    acc: bool,
    st: Status,
    c: Option<ContentView>,
    s2: Status,
    c2: Option<ContentView>,
)
    requires
        !acc,
        spec_negotiated(acc, st, c, s2, c2),
    ensures
        s2 == st,
        c2 == c,
        c2 matches Some(cv) ==> cv.encoding is None ==> spec_derived_headers(c2) == seq![
            (content_type_key(), spec_content_type_bytes(cv.content_type)),
            (content_length_key(), spec_dec(cv.body.len())),
        ],
{
}

/// A path no route predicate matches replies `404` with no content.
pub proof fn lemma_unknown_path(r: ReqView, root: Seq<u8>)
    requires
        r.path != root_path(),
        r.path != user_agent_path(),
        !spec_starts_with(r.path, echo_prefix()),
        !spec_starts_with(r.path, files_prefix()),
    ensures
        spec_dispatch(r, root) == ActionView::Reply(Status::NotFound, None::<ContentView>),
{
}

/// Header parsing is idempotent under any rendering order: serialize a
/// request's headers in whatever order, and re-parsing the byte stream
/// yields that rendering's entries — which store, name for name, exactly
/// what the original mapping stored.
pub proof fn lemma_reparse_any_header_order(m: ReqView, es2: Seq<(Seq<u8>, Seq<u8>)>)
    requires
        req_serializable(m),
        distinct_keys(es2),
        es2.to_multiset() == m.headers.to_multiset(),
    ensures
        spec_parse(
            spec_req_wire(
                ReqView {
                    method: m.method,
                    path: m.path,
                    http_version: m.http_version,
                    headers: es2,
                    body: m.body,
                },
            ),
        ) == Ok::<ReqView, ParseErrorView>(
            ReqView {
                method: m.method,
                path: m.path,
                http_version: m.http_version,
                headers: es2,
                body: m.body,
            },
        ),
        forall|k: Seq<u8>| #[trigger] spec_lookup(es2, k) == spec_lookup(m.headers, k),
{
    broadcast use vstd::seq_lib::group_to_multiset_ensures;

    let m2 = ReqView {
        method: m.method,
        path: m.path,
        http_version: m.http_version,
        headers: es2,
        body: m.body,
    };
    assert forall|i: int| 0 <= i < es2.len() implies header_wf(
        (#[trigger] es2[i]).0,
        es2[i].1,
    ) by {
        assert(es2.contains(es2[i]));
        assert(m.headers.to_multiset().count(es2[i]) > 0);
        assert(m.headers.contains(es2[i]));
        let j = choose|j: int| 0 <= j < m.headers.len() && m.headers[j] == es2[i];
        assert(header_wf(m.headers[j].0, m.headers[j].1));
    }
    assert(req_serializable(m2));
    lemma_parse_round_trip(m2);
    assert forall|k: Seq<u8>| #[trigger] spec_lookup(es2, k) == spec_lookup(m.headers, k) by {
        lemma_lookup_permutation(es2, m.headers, k);
    }
}

} // verus!
