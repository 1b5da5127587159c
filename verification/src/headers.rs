//! Header mappings: ordered association lists from header names to values,
//! with last-write-wins insertion, as the parser builds them and the
//! serializer writes them out.

use vstd::prelude::*;

use crate::bytestr::bytes_eq;
use crate::bytestr::extend;

verus! {

/// Index of the first entry at or after `from` whose name is `k`.
pub open spec fn spec_find_key(es: Seq<(Seq<u8>, Seq<u8>)>, k: Seq<u8>, from: int) -> Option<int>
    recommends
        0 <= from,
    decreases es.len() - from,
    when 0 <= from
{
    if from >= es.len() {
        None
    } else if es[from].0 == k {
        Some(from)
    } else {
        spec_find_key(es, k, from + 1)
    }
}

/// The value stored under `k`, if any.
pub open spec fn spec_lookup(es: Seq<(Seq<u8>, Seq<u8>)>, k: Seq<u8>) -> Option<Seq<u8>> {
    match spec_find_key(es, k, 0) {
        Some(i) => Some(es[i].1),
        None => None,
    }
}

/// Store `v` under `k`: overwrite the entry that holds `k`, or append one.
pub open spec fn spec_upsert(es: Seq<(Seq<u8>, Seq<u8>)>, k: Seq<u8>, v: Seq<u8>) -> Seq<
    (Seq<u8>, Seq<u8>),
> {
    match spec_find_key(es, k, 0) {
        Some(i) => es.update(i, (k, v)),
        None => es.push((k, v)),
    }
}

/// A header mapping: entries in insertion order, names unique.
#[derive(Debug)]
pub struct Headers {
    entries: Vec<(Vec<u8>, Vec<u8>)>,
}

impl View for Headers {
    type V = Seq<(Seq<u8>, Seq<u8>)>;

    closed spec fn view(&self) -> Seq<(Seq<u8>, Seq<u8>)> {
        Seq::new(self.entries@.len(), |i: int| (self.entries@[i].0@, self.entries@[i].1@))
    }
}

impl Headers {
    pub fn new() -> (h: Headers)
        ensures
            h@ == Seq::<(Seq<u8>, Seq<u8>)>::empty(),
    {
        let h = Headers { entries: Vec::new() };
        proof {
            assert(h@ =~= Seq::<(Seq<u8>, Seq<u8>)>::empty());
        }
        h
    }

    pub fn len(&self) -> (n: usize)
        ensures
            n == self@.len(),
    {
        self.entries.len()
    }

    /// Store `v` under `k`, overwriting an entry that already holds `k`.
    pub fn insert(&mut self, k: Vec<u8>, v: Vec<u8>)
        ensures
            final(self)@ == spec_upsert(old(self)@, k@, v@),
    {
        let mut i: usize = 0;
        while i < self.entries.len()
            invariant
                i <= self.entries@.len(),
                *self == *old(self),
                spec_find_key(self@, k@, 0) == spec_find_key(self@, k@, i as int),
            decreases self.entries@.len() - i,
        {
            let hit = bytes_eq(&self.entries[i].0, &k);
            if hit {
                assert(self@[i as int].0 == k@);
                self.entries[i] = (k, v);
                proof {
                    assert(self@ =~~= spec_upsert(old(self)@, self@[i as int].0, self@[
                        i as int].1));
                }
                return ;
            }
            assert(self@[i as int].0 != k@);
            i += 1;
        }
        self.entries.push((k, v));
        proof {
            assert(self@ =~~= old(self)@.push((k@, v@)));
        }
    }

    /// The value stored under `k`, if any.
    pub fn get<'a>(&'a self, k: &Vec<u8>) -> (r: Option<&'a Vec<u8>>)
        ensures
            match r {
                Some(v) => spec_lookup(self@, k@) == Some(v@),
                None => spec_lookup(self@, k@) is None,
            },
    {
        let mut i: usize = 0;
        while i < self.entries.len()
            invariant
                i <= self.entries@.len(),
                spec_find_key(self@, k@, 0) == spec_find_key(self@, k@, i as int),
            decreases self.entries@.len() - i,
        {
            let hit = bytes_eq(&self.entries[i].0, &k);
            if hit {
                assert(self@[i as int].0 == k@);
                return Some(&self.entries[i].1);
            }
            assert(self@[i as int].0 != k@);
            i += 1;
        }
        None
    }
}

/// The bytes `: ` that separate a header name from its value on the wire.
pub open spec fn colon_space() -> Seq<u8> {
    seq![58u8, 32]
}

/// The line terminator, as a sequence.
pub open spec fn crlf() -> Seq<u8> {
    seq![13u8, 10]
}

/// The wire form of a header block: `name: value` lines joined by CRLF,
/// without a trailing terminator.
pub open spec fn spec_headers_wire(es: Seq<(Seq<u8>, Seq<u8>)>) -> Seq<u8>
    decreases es.len(),
{
    if es.len() == 0 {
        seq![]
    } else if es.len() == 1 {
        es[0].0 + colon_space() + es[0].1
    } else {
        es[0].0 + colon_space() + es[0].1 + crlf() + spec_headers_wire(es.drop_first())
    }
}

impl Headers {
    /// Render this mapping in its wire form.
    pub fn wire_bytes(&self) -> (r: Vec<u8>)
        ensures
            r@ == spec_headers_wire(self@),
    {
        let mut r: Vec<u8> = Vec::new();
        let mut i: usize = self.entries.len();
        proof {
            assert(self@.skip(i as int) =~= Seq::<(Seq<u8>, Seq<u8>)>::empty());
        }
        while i > 0
            invariant
                i <= self.entries@.len(),
                r@ == spec_headers_wire(self@.skip(i as int)),
            decreases i,
        {
            i -= 1;
            let mut line: Vec<u8> = Vec::new();
            extend(&mut line, &self.entries[i].0);
            line.push(58);
            line.push(32);
            extend(&mut line, &self.entries[i].1);
            if i + 1 < self.entries.len() {
                line.push(13);
                line.push(10);
            }
            extend(&mut line, &r);
            proof {
                let es = self@.skip(i as int);
                assert(es[0] == self@[i as int]);
                assert(es.drop_first() =~~= self@.skip(i as int + 1));
                if i as int + 1 == self@.len() {
                    assert(es.len() == 1);
                    assert(line@ =~= spec_headers_wire(es));
                } else {
                    assert(es.len() >= 2);
                    assert(line@ =~= es[0].0 + colon_space() + es[0].1 + crlf()
                        + spec_headers_wire(es.drop_first()));
                }
            }
            r = line;
        }
        proof {
            assert(self@.skip(0) =~= self@);
        }
        r
    }
}

/// The header block of a request on the wire: every `name: value` line with
/// its CRLF terminator.
pub open spec fn spec_header_lines(es: Seq<(Seq<u8>, Seq<u8>)>) -> Seq<u8>
    decreases es.len(),
{
    if es.len() == 0 {
        seq![]
    } else {
        es[0].0 + colon_space() + es[0].1 + crlf() + spec_header_lines(es.drop_first())
    }
}

impl Headers {
    /// Render this mapping as terminated header lines.
    pub fn wire_lines(&self) -> (r: Vec<u8>)
        ensures
            r@ == spec_header_lines(self@),
    {
        let mut r: Vec<u8> = Vec::new();
        let mut i: usize = self.entries.len();
        proof {
            assert(self@.skip(i as int) =~= Seq::<(Seq<u8>, Seq<u8>)>::empty());
        }
        while i > 0
            invariant
                i <= self.entries@.len(),
                r@ == spec_header_lines(self@.skip(i as int)),
            decreases i,
        {
            i -= 1;
            let mut line: Vec<u8> = Vec::new();
            extend(&mut line, &self.entries[i].0);
            line.push(58);
            line.push(32);
            extend(&mut line, &self.entries[i].1);
            line.push(13);
            line.push(10);
            extend(&mut line, &r);
            proof {
                let es = self@.skip(i as int);
                assert(es[0] == self@[i as int]);
                assert(es.drop_first() =~~= self@.skip(i as int + 1));
                assert(line@ =~= es[0].0 + colon_space() + es[0].1 + crlf() + spec_header_lines(
                    es.drop_first(),
                ));
            }
            r = line;
        }
        proof {
            assert(self@.skip(0) =~= self@);
        }
        r
    }
}

} // verus!
