//! Request-line parsing and query-string parsing.
//!
//! The request line is the first line of the raw request text, split at
//! whitespace: a request is acceptable exactly when it has at least two
//! tokens and the first is `GET`. The query string is split on `&`; each
//! fragment with an `=` yields a key/value pair (key before the first
//! `=`, value after it), fragments without one are dropped, and a
//! duplicated key takes its last value.

use vstd::prelude::*;
use crate::strutil::{
    find_char, first_line, first_line_of, lemma_find_char, scan_char, split_on, split_on_char,
    split_whitespace_tokens, str_eq, tokens_of,
};

verus! {

/// The whitespace tokens of the request's first line.
pub open spec fn request_tokens(req: Seq<char>) -> Seq<Seq<char>> {
    tokens_of(first_line_of(req))
}

/// An acceptable request: at least a method and a target, method `GET`.
pub open spec fn is_get_request(req: Seq<char>) -> bool {
    request_tokens(req).len() >= 2 && request_tokens(req)[0] == "GET"@
}

/// The raw target (path plus optional query) of an acceptable request.
pub open spec fn target_of(req: Seq<char>) -> Seq<char> {
    request_tokens(req)[1]
}

/// Extracts the target of the request, or nothing when the request is
/// not an acceptable `GET` and must be answered with the
/// method-not-allowed response.
pub fn parse_request_line(req: &str) -> (r: Option<String>)
    ensures
        match r {
            Some(t) => is_get_request(req@) && t@ == target_of(req@),
            None => !is_get_request(req@),
        },
{
    let line = first_line(req);
    let toks = split_whitespace_tokens(line);
    proof {
        assert(toks.deep_view().len() == toks@.len());
    }
    if toks.len() < 2 {
        return None;
    }
    proof {
        assert(toks.deep_view()[0] == toks@[0]@);
        assert(toks.deep_view()[1] == toks@[1]@);
    }
    if str_eq(toks[0].as_str(), "GET") {
        Some(toks[1].clone())
    } else {
        None
    }
}

/// The pair a query fragment denotes, when it has an `=` at all.
pub open spec fn pair_of(frag: Seq<char>) -> Option<(Seq<char>, Seq<char>)> {
    let k = find_char(frag, '=');
    if k < 0 {
        None
    } else {
        Some((frag.take(k), frag.skip(k + 1)))
    }
}

/// The pairs of a fragment list, fragments without `=` dropped.
pub open spec fn pairs_of(frags: Seq<Seq<char>>) -> Seq<(Seq<char>, Seq<char>)>
    decreases frags.len(),
{
    if frags.len() == 0 {
        Seq::empty()
    } else {
        let rest = pairs_of(frags.skip(1));
        match pair_of(frags[0]) {
            Some(p) => seq![p] + rest,
            None => rest,
        }
    }
}

/// The key/value pairs of a query string, in occurrence order.
pub open spec fn query_pairs(q: Seq<char>) -> Seq<(Seq<char>, Seq<char>)> {
    pairs_of(split_on(q, '&'))
}

/// The value stored under `key`: the value of its last occurrence.
pub open spec fn lookup_param(ps: Seq<(Seq<char>, Seq<char>)>, key: Seq<char>) -> Option<Seq<char>>
    decreases ps.len(),
{
    if ps.len() == 0 {
        None
    } else {
        match lookup_param(ps.skip(1), key) {
            Some(v) => Some(v),
            None => if ps[0].0 == key {
                Some(ps[0].1)
            } else {
                None
            },
        }
    }
}

/// Appending one pair either overrides the key or leaves every other
/// lookup unchanged.
pub proof fn lemma_lookup_push(ps: Seq<(Seq<char>, Seq<char>)>, p: (Seq<char>, Seq<char>), key: Seq<char>)
    ensures
        lookup_param(ps.push(p), key) == if p.0 == key {
            Some(p.1)
        } else {
            lookup_param(ps, key)
        },
    decreases ps.len(),
{
    if ps.len() == 0 {
        assert(ps.push(p)[0] == p);
        assert(ps.push(p).skip(1) =~= Seq::<(Seq<char>, Seq<char>)>::empty());
        assert(lookup_param(Seq::<(Seq<char>, Seq<char>)>::empty(), key) is None);
        assert(lookup_param(ps.push(p).skip(1), key) is None);
        if p.0 == key {
            assert(lookup_param(ps.push(p), key) == Some(p.1));
        } else {
            assert(lookup_param(ps.push(p), key) is None);
        }
    } else {
        assert(ps.push(p).skip(1) =~= ps.skip(1).push(p));
        lemma_lookup_push(ps.skip(1), p, key);
        assert(ps.push(p)[0] == ps[0]);
        assert(lookup_param(ps.push(p).skip(1), key) == lookup_param(ps.skip(1).push(p), key));
        if p.0 == key {
            assert(lookup_param(ps.push(p).skip(1), key) == Some(p.1));
            assert(lookup_param(ps.push(p), key) == Some(p.1));
        } else {
            assert(lookup_param(ps.push(p).skip(1), key) == lookup_param(ps.skip(1), key));
            assert(lookup_param(ps.push(p), key) == lookup_param(ps, key));
        }
    }
}

/// The parsed query parameters of one request.
pub struct QueryParams {
    pub pairs: Vec<(String, String)>,
}

impl QueryParams {
    /// The pairs as the specification sees them.
    pub open spec fn params(&self) -> Seq<(Seq<char>, Seq<char>)> {
        self.pairs.deep_view()
    }

    /// The value of `key`, its last occurrence winning.
    pub fn get_param(&self, key: &str) -> (r: Option<&String>)
        ensures
            match r {
                Some(v) => lookup_param(self.params(), key@) == Some(v@),
                None => lookup_param(self.params(), key@) is None,
            },
    {
        let n = self.pairs.len();
        proof {
            assert(self.params().len() == n);
            assert(self.params().take(0) =~= Seq::<(Seq<char>, Seq<char>)>::empty());
        }
        let mut best: Option<&String> = None;
        let mut i: usize = 0;
        while i < n
            invariant
                n == self.pairs.len(),
                n == self.params().len(),
                0 <= i <= n,
                match best {
                    Some(v) => lookup_param(self.params().take(i as int), key@) == Some(v@),
                    None => lookup_param(self.params().take(i as int), key@) is None,
                },
            decreases n - i,
        {
            proof {
                assert(self.params()[i as int] == (self.pairs@[i as int].0@, self.pairs@[
                    i as int].1@));
                assert(self.params().take(i + 1) =~= self.params().take(i as int).push(
                    self.params()[i as int],
                ));
                lemma_lookup_push(
                    self.params().take(i as int),
                    self.params()[i as int],
                    key@,
                );
            }
            if str_eq(self.pairs[i].0.as_str(), key) {
                best = Some(&self.pairs[i].1);
            }
            i += 1;
        }
        proof {
            assert(self.params().take(n as int) =~= self.params());
        }
        best
    }
}

/// Parses a query string into its pairs.
pub fn parse_query(q: &str) -> (r: QueryParams)
    ensures
        r.params() == query_pairs(q@),
{
    let frags = split_on_char(q, '&');
    let ghost fv = frags.deep_view();
    let mut pairs: Vec<(String, String)> = Vec::new();
    proof {
        assert(pairs.deep_view() =~= Seq::<(Seq<char>, Seq<char>)>::empty());
        assert(fv.skip(0) =~= fv);
        assert(pairs.deep_view() + pairs_of(fv) =~= pairs_of(fv));
    }
    let mut i: usize = 0;
    while i < frags.len()
        invariant
            fv == frags.deep_view(),
            fv.len() == frags@.len(),
            0 <= i <= frags@.len(),
            pairs_of(fv) == pairs.deep_view() + pairs_of(fv.skip(i as int)),
        decreases frags@.len() - i,
    {
        let ghost prev = pairs.deep_view();
        let frag = &frags[i];
        let n = frag.as_str().unicode_len();
        proof {
            assert(fv[i as int] == frags@[i as int]@);
            assert(fv.skip(i as int)[0] == fv[i as int]);
            assert(fv.skip(i as int).skip(1) =~= fv.skip(i + 1));
        }
        match scan_char(frag.as_str(), '=') {
            Some(k) => {
                proof {
                    lemma_find_char(frag@, '=');
                }
                let key = frag.as_str().substring_char(0, k).to_owned();
                let value = frag.as_str().substring_char(k + 1, n).to_owned();
                pairs.push((key, value));
                proof {
                    assert(frag@.subrange(0, k as int) =~= frag@.take(k as int));
                    assert(frag@.subrange(k + 1, n as int) =~= frag@.skip(k + 1));
                    assert(pairs.deep_view() =~= prev + seq![
                        (frag@.take(k as int), frag@.skip(k + 1)),
                    ]);
                    assert(pairs.deep_view() + pairs_of(fv.skip(i + 1)) =~= prev + pairs_of(
                        fv.skip(i as int),
                    ));
                }
            },
            None => {
                proof {
                    assert(pair_of(fv[i as int]) is None);
                }
            },
        }
        i += 1;
    }
    proof {
        assert(fv.skip(frags@.len() as int) =~= Seq::<Seq<char>>::empty());
        assert(pairs.deep_view() + Seq::<(Seq<char>, Seq<char>)>::empty() =~= pairs.deep_view());
    }
    QueryParams { pairs }
}

} // verus!
