//! The router: registered (method, pattern, handler) routes, pattern
//! matching with literal and `{name}` wildcard segments, and
//! resolution of a concrete path.  Matching is exact on segment count;
//! a wildcard matches one non-empty segment.  A pattern whose segments
//! are all literal takes precedence over wildcard patterns; among
//! wildcard patterns, registration order decides.  Registering the
//! same (method, pattern) pair twice keeps the first registration.

use vstd::prelude::*;

use crate::bytes_util::{bytes_eq, lemma_split_from, seqs_of, split_bytes, split_from};
use crate::handler::Handler;
use crate::headers::{lookup, put, Headers, lemma_lookup_put};
use crate::message::HTTPMethod;
use vstd::slice::{slice_subrange, slice_to_vec};

verus! {

/// One registered route.
pub struct Route {
    pub method: HTTPMethod,
    pub segs: Vec<Vec<u8>>,
    pub handler: Handler,
}

/// The mathematical value of one route.
pub type RouteModel = (HTTPMethod, Seq<Seq<u8>>, Handler);

/// The mathematical value of a route table.
pub open spec fn models(routes: Seq<Route>) -> Seq<RouteModel> {
    Seq::new(routes.len(), |i: int| (routes[i].method, seqs_of(routes[i].segs), routes[i].handler))
}

/// The segments of a path or pattern: the text split on every slash.
pub open spec fn path_segs(p: Seq<u8>) -> Seq<Seq<u8>> {
    split_from(p, 47, 0)
}

/// A `{name}` wildcard segment.
pub open spec fn is_wild(seg: Seq<u8>) -> bool {
    seg.len() >= 2 && seg[0] == 123 && seg[seg.len() - 1] == 125
}

/// The name between the braces of a wildcard segment.
pub open spec fn wild_name(seg: Seq<u8>) -> Seq<u8> {
    seg.subrange(1, seg.len() - 1)
}

/// One pattern segment against one path segment: a wildcard matches
/// any non-empty segment, a literal only itself.
pub open spec fn seg_matches(pat: Seq<u8>, s: Seq<u8>) -> bool {
    if is_wild(pat) {
        s.len() > 0
    } else {
        pat == s
    }
}

/// A whole pattern against a whole path: same segment count, and every
/// segment matches.
pub open spec fn segs_match(pats: Seq<Seq<u8>>, segs: Seq<Seq<u8>>) -> bool {
    pats.len() == segs.len() && forall|i: int|
        0 <= i < pats.len() ==> seg_matches(pats[i], segs[i])
}

/// A pattern without wildcards.
pub open spec fn all_literal(pats: Seq<Seq<u8>>) -> bool {
    forall|i: int| 0 <= i < pats.len() ==> !is_wild(pats[i])
}

/// The parameters a match extracts, walked front to back with the last
/// write winning.
pub open spec fn params_from(
    pats: Seq<Seq<u8>>,
    segs: Seq<Seq<u8>>,
    k: nat,
    acc: Seq<(Seq<u8>, Seq<u8>)>,
) -> Seq<(Seq<u8>, Seq<u8>)>
    decreases pats.len() - k,
    when k <= pats.len()
{
    if k == pats.len() {
        acc
    } else {
        params_from(pats, segs, k + 1, if is_wild(pats[k as int]) {
            put(acc, wild_name(pats[k as int]), segs[k as int])
        } else {
            acc
        })
    }
}

pub open spec fn params_of(pats: Seq<Seq<u8>>, segs: Seq<Seq<u8>>) -> Seq<(Seq<u8>, Seq<u8>)> {
    params_from(pats, segs, 0, Seq::<(Seq<u8>, Seq<u8>)>::empty())
}

/// Route `j` resolves `(m, segs)` exactly: right method, no wildcards,
/// the pattern is the path.
pub open spec fn exact_at(tbl: Seq<RouteModel>, j: int, m: HTTPMethod, segs: Seq<Seq<u8>>) -> bool {
    tbl[j].0 == m && all_literal(tbl[j].1) && tbl[j].1 == segs
}

/// Route `j` matches `(m, segs)`.
pub open spec fn match_at(tbl: Seq<RouteModel>, j: int, m: HTTPMethod, segs: Seq<Seq<u8>>) -> bool {
    tbl[j].0 == m && segs_match(tbl[j].1, segs)
}

/// The first exactly-resolving route at or after `k`.
pub open spec fn find_exact(
    tbl: Seq<RouteModel>,
    m: HTTPMethod,
    segs: Seq<Seq<u8>>,
    k: nat,
) -> Option<nat>
    decreases tbl.len() - k,
    when k <= tbl.len()
{
    if k == tbl.len() {
        None
    } else if exact_at(tbl, k as int, m, segs) {
        Some(k)
    } else {
        find_exact(tbl, m, segs, k + 1)
    }
}

/// The first matching route at or after `k`.
pub open spec fn find_match(
    tbl: Seq<RouteModel>,
    m: HTTPMethod,
    segs: Seq<Seq<u8>>,
    k: nat,
) -> Option<nat>
    decreases tbl.len() - k,
    when k <= tbl.len()
{
    if k == tbl.len() {
        None
    } else if match_at(tbl, k as int, m, segs) {
        Some(k)
    } else {
        find_match(tbl, m, segs, k + 1)
    }
}

/// What resolving `(m, segs)` yields: the handler of the first exact
/// route with no parameters, else the handler of the first matching
/// route with its extracted parameters, else nothing.
pub open spec fn spec_resolve(tbl: Seq<RouteModel>, m: HTTPMethod, segs: Seq<Seq<u8>>) -> Option<
    (Handler, Seq<(Seq<u8>, Seq<u8>)>),
> {
    match find_exact(tbl, m, segs, 0) {
        Some(j) => Some((tbl[j as int].2, Seq::<(Seq<u8>, Seq<u8>)>::empty())),
        None => match find_match(tbl, m, segs, 0) {
            Some(j) => Some((tbl[j as int].2, params_of(tbl[j as int].1, segs))),
            None => None,
        },
    }
}

/// No two routes share a (method, pattern) pair.
pub open spec fn wf_table(tbl: Seq<RouteModel>) -> bool {
    forall|i: int, j: int|
        0 <= i < j < tbl.len() ==> !(tbl[i].0 == tbl[j].0 && tbl[i].1 == tbl[j].1)
}

/// A (method, pattern) pair is already registered.
pub open spec fn has_route(tbl: Seq<RouteModel>, m: HTTPMethod, segs: Seq<Seq<u8>>) -> bool {
    exists|i: int| 0 <= i < tbl.len() && tbl[i].0 == m && tbl[i].1 == segs
}

/// What registration yields: the first registration of a pair wins.
pub open spec fn spec_register(
    tbl: Seq<RouteModel>,
    m: HTTPMethod,
    segs: Seq<Seq<u8>>,
    h: Handler,
) -> Seq<RouteModel> {
    if has_route(tbl, m, segs) {
        tbl
    } else {
        tbl.push((m, segs, h))
    }
}

pub proof fn lemma_find_exact(tbl: Seq<RouteModel>, m: HTTPMethod, segs: Seq<Seq<u8>>, k: nat)
    requires
        k <= tbl.len(),
    ensures
        match find_exact(tbl, m, segs, k) {
            Some(j) => k <= j < tbl.len() && exact_at(tbl, j as int, m, segs) && forall|t: int|
                k <= t < j ==> !exact_at(tbl, t, m, segs),
            None => forall|t: int| k <= t < tbl.len() ==> !exact_at(tbl, t, m, segs),
        },
    decreases tbl.len() - k,
{
    if k < tbl.len() && !exact_at(tbl, k as int, m, segs) {
        lemma_find_exact(tbl, m, segs, k + 1);
    }
}

pub proof fn lemma_find_match(tbl: Seq<RouteModel>, m: HTTPMethod, segs: Seq<Seq<u8>>, k: nat)
    requires
        k <= tbl.len(),
    ensures
        match find_match(tbl, m, segs, k) {
            Some(j) => k <= j < tbl.len() && match_at(tbl, j as int, m, segs) && forall|t: int|
                k <= t < j ==> !match_at(tbl, t, m, segs),
            None => forall|t: int| k <= t < tbl.len() ==> !match_at(tbl, t, m, segs),
        },
    decreases tbl.len() - k,
{
    if k < tbl.len() && !match_at(tbl, k as int, m, segs) {
        lemma_find_match(tbl, m, segs, k + 1);
    }
}

proof fn lemma_params_suffix(
    pats: Seq<Seq<u8>>,
    segs: Seq<Seq<u8>>,
    n: Seq<u8>,
    k: nat,
    acc: Seq<(Seq<u8>, Seq<u8>)>,
)
    requires
        k <= pats.len(),
        forall|j: int| k <= j < pats.len() ==> !(is_wild(pats[j]) && wild_name(pats[j]) == n),
    ensures
        lookup(params_from(pats, segs, k, acc), n) == lookup(acc, n),
    decreases pats.len() - k,
{
    if k < pats.len() {
        if is_wild(pats[k as int]) {
            let acc2 = put(acc, wild_name(pats[k as int]), segs[k as int]);
            lemma_lookup_put(acc, wild_name(pats[k as int]), segs[k as int], n);
            lemma_params_suffix(pats, segs, n, k + 1, acc2);
        } else {
            lemma_params_suffix(pats, segs, n, k + 1, acc);
        }
    }
}

proof fn lemma_params_hit(
    pats: Seq<Seq<u8>>,
    segs: Seq<Seq<u8>>,
    i: int,
    k: nat,
    acc: Seq<(Seq<u8>, Seq<u8>)>,
)
    requires
        k <= i < pats.len(),
        is_wild(pats[i]),
        forall|j: int|
            i < j < pats.len() ==> !(is_wild(pats[j]) && wild_name(pats[j]) == wild_name(pats[i])),
    ensures
        lookup(params_from(pats, segs, k, acc), wild_name(pats[i])) == Some(segs[i]),
    decreases i - k,
{
    if k == i {
        let acc2 = put(acc, wild_name(pats[i]), segs[i]);
        lemma_lookup_put(acc, wild_name(pats[i]), segs[i], wild_name(pats[i]));
        lemma_params_suffix(pats, segs, wild_name(pats[i]), k + 1, acc2);
    } else {
        if is_wild(pats[k as int]) {
            lemma_params_hit(pats, segs, i, k + 1, put(acc, wild_name(pats[k as int]), segs[k as int]));
        } else {
            lemma_params_hit(pats, segs, i, k + 1, acc);
        }
    }
}

/// For every registered route whose pattern has only literal segments,
/// resolving its own path returns exactly its handler, with no
/// parameters.
pub proof fn lemma_literal_resolve(tbl: Seq<RouteModel>, i: int)
    requires
        wf_table(tbl),
        0 <= i < tbl.len(),
        all_literal(tbl[i].1),
    ensures
        spec_resolve(tbl, tbl[i].0, tbl[i].1) == Some(
            (tbl[i].2, Seq::<(Seq<u8>, Seq<u8>)>::empty()),
        ),
{
    lemma_find_exact(tbl, tbl[i].0, tbl[i].1, 0);
    assert(exact_at(tbl, i, tbl[i].0, tbl[i].1));
    match find_exact(tbl, tbl[i].0, tbl[i].1, 0) {
        Some(j) => {
            assert(tbl[j as int].0 == tbl[i].0 && tbl[j as int].1 == tbl[i].1);
            assert(j == i);
        },
        None => {
            assert(false);
        },
    }
}

/// For a pattern matching a concrete path, each `{name}` wildcard (not
/// shadowed by a later wildcard of the same name) is bound to exactly
/// the path segment it matched; a matched segment never contains a
/// slash, so in particular no leading or trailing one.
pub proof fn lemma_wildcard_params(pats: Seq<Seq<u8>>, path: Seq<u8>, i: int)
    requires
        segs_match(pats, path_segs(path)),
        0 <= i < pats.len(),
        is_wild(pats[i]),
        forall|j: int|
            i < j < pats.len() ==> !(is_wild(pats[j]) && wild_name(pats[j]) == wild_name(pats[i])),
    ensures
        lookup(params_of(pats, path_segs(path)), wild_name(pats[i])) == Some(path_segs(path)[i]),
        path_segs(path)[i].len() > 0,
        forall|t: int| 0 <= t < path_segs(path)[i].len() ==> path_segs(path)[i][t] != 47,
{
    lemma_params_hit(pats, path_segs(path), i, 0, Seq::<(Seq<u8>, Seq<u8>)>::empty());
    assert(seg_matches(pats[i], path_segs(path)[i]));
    lemma_split_from(path, 47, 0);
}

/// The same, said of resolution itself: when a path resolves through a
/// wildcard pattern (route `j`, no exact route), the returned
/// parameters bind each unshadowed `{name}` of that pattern to exactly
/// the path segment it matched.
pub proof fn lemma_resolve_wildcard_params(
    tbl: Seq<RouteModel>,
    m: HTTPMethod,
    path: Seq<u8>,
    j: int,
    i: int,
)
    requires
        find_exact(tbl, m, path_segs(path), 0) is None,
        0 <= j < tbl.len(),
        find_match(tbl, m, path_segs(path), 0) == Some(j as nat),
        0 <= i < tbl[j].1.len(),
        is_wild(tbl[j].1[i]),
        forall|t: int|
            i < t < tbl[j].1.len() ==> !(is_wild(tbl[j].1[t]) && wild_name(tbl[j].1[t])
                == wild_name(tbl[j].1[i])),
    ensures
        spec_resolve(tbl, m, path_segs(path)) matches Some(hp) && hp.0 == tbl[j].2 && lookup(
            hp.1,
            wild_name(tbl[j].1[i]),
        ) == Some(path_segs(path)[i]),
        path_segs(path)[i].len() > 0,
        forall|t: int| 0 <= t < path_segs(path)[i].len() ==> path_segs(path)[i][t] != 47,
{
    lemma_find_match(tbl, m, path_segs(path), 0);
    assert(segs_match(tbl[j].1, path_segs(path)));
    lemma_wildcard_params(tbl[j].1, path, i);
}

/// A wildcard segment: at least two bytes, brace-wrapped.
fn seg_is_wild(seg: &[u8]) -> (r: bool)
    ensures
        r == is_wild(seg@),
{
    let n: usize = seg.len();
    n >= 2 && seg[0] == 123 && seg[n - 1] == 125
}

fn all_literal_segs(segs: &Vec<Vec<u8>>) -> (r: bool)
    ensures
        r == all_literal(seqs_of(*segs)),
{
    let mut i: usize = 0;
    while i < segs.len()
        invariant
            i <= segs@.len(),
            forall|j: int| 0 <= j < i ==> !is_wild(seqs_of(*segs)[j]),
        decreases segs@.len() - i,
    {
        if seg_is_wild(segs[i].as_slice()) {
            assert(is_wild(seqs_of(*segs)[i as int]));
            return false;
        }
        i += 1;
    }
    true
}

fn segs_eq(a: &Vec<Vec<u8>>, b: &Vec<Vec<u8>>) -> (r: bool)
    ensures
        r == (seqs_of(*a) == seqs_of(*b)),
{
    if a.len() != b.len() {
        assert(seqs_of(*a).len() != seqs_of(*b).len());
        return false;
    }
    let mut i: usize = 0;
    while i < a.len()
        invariant
            i <= a@.len(),
            a@.len() == b@.len(),
            forall|j: int| 0 <= j < i ==> seqs_of(*a)[j] == seqs_of(*b)[j],
        decreases a@.len() - i,
    {
        if !bytes_eq(a[i].as_slice(), b[i].as_slice()) {
            assert(seqs_of(*a)[i as int] != seqs_of(*b)[i as int]);
            return false;
        }
        assert(seqs_of(*a)[i as int] == seqs_of(*b)[i as int]);
        i += 1;
    }
    proof {
        assert(seqs_of(*a) =~= seqs_of(*b));
    }
    true
}

fn segs_match_exec(pats: &Vec<Vec<u8>>, segs: &Vec<Vec<u8>>) -> (r: bool)
    ensures
        r == segs_match(seqs_of(*pats), seqs_of(*segs)),
{
    if pats.len() != segs.len() {
        return false;
    }
    let mut i: usize = 0;
    while i < pats.len()
        invariant
            i <= pats@.len(),
            pats@.len() == segs@.len(),
            forall|j: int| 0 <= j < i ==> seg_matches(seqs_of(*pats)[j], seqs_of(*segs)[j]),
        decreases pats@.len() - i,
    {
        let ok = if seg_is_wild(pats[i].as_slice()) {
            segs[i].len() > 0
        } else {
            bytes_eq(pats[i].as_slice(), segs[i].as_slice())
        };
        if !ok {
            assert(!seg_matches(seqs_of(*pats)[i as int], seqs_of(*segs)[i as int]));
            return false;
        }
        assert(seg_matches(seqs_of(*pats)[i as int], seqs_of(*segs)[i as int]));
        i += 1;
    }
    true
}

/// Extracts the wildcard bindings of a matched pattern.
fn extract_params(pats: &Vec<Vec<u8>>, segs: &Vec<Vec<u8>>) -> (r: Headers)
    requires
        pats@.len() == segs@.len(),
    ensures
        r@ == params_of(seqs_of(*pats), seqs_of(*segs)),
        r.wf(),
{
    let ghost pv = seqs_of(*pats);
    let ghost sv = seqs_of(*segs);
    let mut acc = Headers::new();
    let mut k: usize = 0;
    while k < pats.len()
        invariant
            k <= pats@.len(),
            pv == seqs_of(*pats),
            sv == seqs_of(*segs),
            pats@.len() == segs@.len(),
            acc.wf(),
            params_of(pv, sv) == params_from(pv, sv, k as nat, acc@),
        decreases pats@.len() - k,
    {
        let ghost acc0 = acc@;
        if seg_is_wild(pats[k].as_slice()) {
            let pat = &pats[k];
            let name = slice_to_vec(slice_subrange(pat.as_slice(), 1, pat.len() - 1));
            let value = slice_to_vec(segs[k].as_slice());
            proof {
                assert(name@ == wild_name(pv[k as int]));
            }
            acc.insert(name, value);
            proof {
                assert(params_from(pv, sv, k as nat, acc0) == params_from(
                    pv,
                    sv,
                    (k + 1) as nat,
                    acc@,
                ));
            }
        } else {
            proof {
                assert(params_from(pv, sv, k as nat, acc0) == params_from(
                    pv,
                    sv,
                    (k + 1) as nat,
                    acc@,
                ));
            }
        }
        k += 1;
    }
    acc
}

/// Splits a pattern or path into its segments.
pub fn split_path(p: &[u8]) -> (r: Vec<Vec<u8>>)
    ensures
        seqs_of(r) == path_segs(p@),
{
    split_bytes(p, 47)
}

/// Resolves a method and concrete path against the table.
pub fn resolve(routes: &Vec<Route>, method: HTTPMethod, path: &[u8]) -> (r: Option<
    (Handler, Headers),
>)
    ensures
        match (r, spec_resolve(models(routes@), method, path_segs(path@))) {
            (Some((h, params)), Some(sp)) => h == sp.0 && params@ == sp.1 && params.wf(),
            (None, None) => true,
            _ => false,
        },
{
    let ghost tbl = models(routes@);
    let ghost sv = path_segs(path@);
    let segs = split_path(path);
    let mut i: usize = 0;
    while i < routes.len()
        invariant
            i <= routes@.len(),
            tbl == models(routes@),
            sv == seqs_of(segs),
            sv == path_segs(path@),
            find_exact(tbl, method, sv, 0) == find_exact(tbl, method, sv, i as nat),
        decreases routes@.len() - i,
    {
        let rt = &routes[i];
        if rt.method == method && all_literal_segs(&rt.segs) && segs_eq(&rt.segs, &segs) {
            proof {
                assert(exact_at(tbl, i as int, method, sv));
                assert(find_exact(tbl, method, sv, i as nat) == Some(i as nat));
                assert(spec_resolve(tbl, method, sv) == Some(
                    (tbl[i as int].2, Seq::<(Seq<u8>, Seq<u8>)>::empty()),
                ));
                assert(rt.handler == tbl[i as int].2);
            }
            return Some((rt.handler, Headers::new()));
        }
        proof {
            assert(!exact_at(tbl, i as int, method, sv));
        }
        i += 1;
    }
    let mut i: usize = 0;
    while i < routes.len()
        invariant
            i <= routes@.len(),
            tbl == models(routes@),
            sv == seqs_of(segs),
            sv == path_segs(path@),
            find_exact(tbl, method, sv, 0) is None,
            find_match(tbl, method, sv, 0) == find_match(tbl, method, sv, i as nat),
        decreases routes@.len() - i,
    {
        let rt = &routes[i];
        if rt.method == method && segs_match_exec(&rt.segs, &segs) {
            proof {
                assert(match_at(tbl, i as int, method, sv));
                assert(find_match(tbl, method, sv, i as nat) == Some(i as nat));
                assert(spec_resolve(tbl, method, sv) == Some(
                    (tbl[i as int].2, params_of(tbl[i as int].1, sv)),
                ));
                assert(rt.handler == tbl[i as int].2);
                assert(tbl[i as int].1 == seqs_of(rt.segs));
            }
            let params = extract_params(&rt.segs, &segs);
            return Some((rt.handler, params));
        }
        proof {
            assert(!match_at(tbl, i as int, method, sv));
        }
        i += 1;
    }
    None
}

/// Adds a route; a pair registered before is kept unchanged.
pub fn insert_route(routes: &mut Vec<Route>, method: HTTPMethod, pattern: &[u8], handler: Handler)
    requires
        wf_table(models(old(routes)@)),
    ensures
        models(final(routes)@) == spec_register(
            models(old(routes)@),
            method,
            path_segs(pattern@),
            handler,
        ),
        wf_table(models(final(routes)@)),
{
    let ghost tbl = models(routes@);
    let ghost sv = path_segs(pattern@);
    let segs = split_path(pattern);
    let mut i: usize = 0;
    while i < routes.len()
        invariant
            i <= routes@.len(),
            tbl == models(routes@),
            tbl == models(old(routes)@),
            sv == seqs_of(segs),
            sv == path_segs(pattern@),
            wf_table(tbl),
            forall|j: int| 0 <= j < i ==> !(tbl[j].0 == method && tbl[j].1 == sv),
        decreases routes@.len() - i,
    {
        let rt = &routes[i];
        if rt.method == method && segs_eq(&rt.segs, &segs) {
            proof {
                assert(tbl[i as int].0 == method && tbl[i as int].1 == sv);
                assert(has_route(tbl, method, sv));
                assert(spec_register(tbl, method, sv, handler) == tbl);
                assert(tbl == models(old(routes)@));
            }
            return ;
        }
        i += 1;
    }
    proof {
        assert(!has_route(tbl, method, sv));
    }
    routes.push(Route { method, segs, handler });
    proof {
        assert(models(routes@) =~= tbl.push((method, sv, handler)));
        assert forall|a: int, b: int|
            0 <= a < b < models(routes@).len() implies !(models(routes@)[a].0 == models(
            routes@,
        )[b].0 && models(routes@)[a].1 == models(routes@)[b].1) by {
            if b < tbl.len() {
            } else {
                assert(models(routes@)[b] == (method, sv, handler));
                if models(routes@)[a].0 == method && models(routes@)[a].1 == sv {
                    assert(has_route(tbl, method, sv));
                }
            }
        }
    }
}

} // verus!
