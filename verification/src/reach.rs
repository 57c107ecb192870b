use vstd::prelude::*;

use crate::graph::Edge;
use crate::text::{
    chars_of, count, first_index, lemma_first_index, lemma_first_index_is,
    lemma_take_full, lex_lt, seq_eq, };

verus! {

// ---------------------------------------------------------------------------
// Paths along edges
// ---------------------------------------------------------------------------

/// Some edge goes from id `a` to id `b`.
pub open spec fn has_edge(edges: Seq<Edge>, a: Seq<char>, b: Seq<char>) -> bool {
    exists|k: int| 0 <= k < edges.len() && #[trigger] edges[k].from@ == a && edges[k].to@ == b
}

/// `p` is a walk along edges.
pub open spec fn is_path(edges: Seq<Edge>, p: Seq<Seq<char>>) -> bool {
    p.len() >= 1 && forall|i: int| 0 <= i < p.len() - 1 ==> #[trigger] has_edge(edges, p[i], p[i + 1])
}

/// Id `t` can be reached from id `s` by following edges (every id reaches itself).
pub open spec fn reachable(edges: Seq<Edge>, s: Seq<char>, t: Seq<char>) -> bool {
    exists|p: Seq<Seq<char>>| #[trigger] is_path(edges, p) && p[0] == s && p.last() == t
}

proof fn lemma_reach_self(edges: Seq<Edge>, s: Seq<char>)
    ensures
        reachable(edges, s, s),
{
    let p = seq![s];
    assert(is_path(edges, p));
}

proof fn lemma_reach_step(edges: Seq<Edge>, s: Seq<char>, a: Seq<char>, k: int)
    requires
        reachable(edges, s, a),
        0 <= k < edges.len(),
        edges[k].from@ == a,
    ensures
        reachable(edges, s, edges[k].to@),
{
    let p = choose|p: Seq<Seq<char>>| #[trigger] is_path(edges, p) && p[0] == s && p.last() == a;
    let q = p.push(edges[k].to@);
    assert(has_edge(edges, a, edges[k].to@));
    assert forall|i: int| 0 <= i < q.len() - 1 implies #[trigger] has_edge(edges, q[i], q[i + 1]) by {
        if i < p.len() - 1 {
            assert(q[i] == p[i] && q[i + 1] == p[i + 1]);
            assert(has_edge(edges, p[i], p[i + 1]));
        }
    }
    assert(is_path(edges, q));
}

// ---------------------------------------------------------------------------
// Breadth-first search over ids
// ---------------------------------------------------------------------------

/// The ids that the search may meet: the start and every edge target.
pub open spec fn candidates(edges: Seq<Edge>, s: Seq<char>) -> Seq<Seq<char>> {
    seq![s] + edges.map_values(|e: Edge| e.to@)
}

pub open spec fn is_true() -> spec_fn(bool) -> bool {
    |b: bool| b
}

proof fn lemma_count_le_len(s: Seq<bool>)
    ensures
        count(s, is_true()) <= s.len(),
    decreases s.len(),
{
    if s.len() > 0 {
        lemma_count_le_len(s.drop_last());
    }
}

proof fn lemma_count_set_true(s: Seq<bool>, i: int)
    requires
        0 <= i < s.len(),
        !s[i],
    ensures
        count(s.update(i, true), is_true()) == count(s, is_true()) + 1,
    decreases s.len(),
{
    let t = s.update(i, true);
    if i == s.len() - 1 {
        assert(t.drop_last() =~= s.drop_last());
    } else {
        assert(t.drop_last() =~= s.drop_last().update(i, true));
        lemma_count_set_true(s.drop_last(), i);
    }
}

pub fn index_of(cands: &Vec<Vec<char>>, x: &Vec<char>) -> (r: Option<usize>)
    ensures
        match first_index(cands@.map_values(|v: Vec<char>| v@), x@) {
            Some(i) => r == Some(i as usize),
            None => r is None,
        },
{
    let ghost cv = cands@.map_values(|v: Vec<char>| v@);
    let mut i: usize = 0;
    while i < cands.len()
        invariant
            i <= cands.len(),
            cv == cands@.map_values(|v: Vec<char>| v@),
            forall|j: int| 0 <= j < i ==> cv[j] != x@,
        decreases cands.len() - i,
    {
        if seq_eq(&cands[i], x) {
            proof {
                lemma_first_index_is(cv, x@, i as int);
            }
            return Some(i);
        }
        i += 1;
    }
    proof {
        lemma_first_index_is(cv, x@, cv.len() as int);
    }
    None
}

/// Whether `x` is one of `list`.
pub fn contains_id(list: &Vec<Vec<char>>, x: &Vec<char>) -> (r: bool)
    ensures
        r == list@.map_values(|v: Vec<char>| v@).contains(x@),
{
    let found = index_of(list, x);
    proof {
        let lv = list@.map_values(|v: Vec<char>| v@);
        lemma_first_index(lv, x@);
    }
    found.is_some()
}

/// The ids reachable from `start` along `edges`.
pub fn reachable_ids(edges: &Vec<Edge>, start: &str) -> (r: Vec<Vec<char>>)
    ensures
        forall|x: Seq<char>|
            #![trigger reachable(edges@, start@, x)]
            r@.map_values(|v: Vec<char>| v@).contains(x) <==> reachable(edges@, start@, x),
{
    // candidate ids
    let mut cands: Vec<Vec<char>> = Vec::new();
    cands.push(chars_of(start));
    for k in 0..edges.len()
        invariant
            cands@.map_values(|v: Vec<char>| v@) =~= seq![start@] + edges@.take(k as int).map_values(
                |e: Edge| e.to@,
            ),
    {
        let t = chars_of(edges[k].to.as_str());
        let ghost before = cands@.map_values(|v: Vec<char>| v@);
        cands.push(t);
        assert(cands@.map_values(|v: Vec<char>| v@) =~= before.push(edges@[k as int].to@));
        assert(edges@.take(k + 1).map_values(|e: Edge| e.to@) =~= edges@.take(k as int).map_values(
            |e: Edge| e.to@,
        ).push(edges@[k as int].to@));
    }
    let ghost cv = cands@.map_values(|v: Vec<char>| v@);
    proof {
        lemma_take_full(edges@);
        assert(cv =~= candidates(edges@, start@));
    }
    let n = cands.len();
    let ghost es = edges@;
    let mut flags: Vec<bool> = Vec::new();
    for k in 0..n
        invariant
            flags@.len() == k,
            forall|j: int| 0 <= j < k ==> !flags@[j],
    {
        flags.push(false);
    }
    proof {
        assert forall|j: int| 0 <= j <= flags@.len() implies count(flags@.take(j), is_true()) == 0 by {
            lemma_count_zero(flags@.take(j));
        }
        lemma_take_full(flags@);
        lemma_first_index_is(cv, start@, 0);
        lemma_reach_self(es, start@);
        lemma_count_set_true(flags@, 0);
    }
    let ghost f0 = flags@;
    flags.set(0, true);
    let mut queue: Vec<usize> = Vec::new();
    queue.push(0);
    proof {
        assert forall|c: int| 0 <= c < n && #[trigger] flags@[c] implies exists|k: int|
            0 <= k < queue@.len() && queue@[k] == c by {
            if c != 0 {
                assert(flags@[c] == f0[c]);
            }
            assert(queue@[0] == 0);
        }
    }
    let mut head: usize = 0;
    while head < queue.len()
        invariant
            n == cands.len() == flags@.len(),
            n >= 1,
            cv == cands@.map_values(|v: Vec<char>| v@),
            cv == candidates(es, start@),
            es == edges@,
            head <= queue.len(),
            queue@.len() >= 1,
            queue@.len() == count(flags@, is_true()),
            queue@[0] == 0,
            forall|k: int|
                0 <= k < queue@.len() ==> #[trigger] queue@[k] < n && flags@[queue@[k] as int]
                    && first_index(cv, cv[queue@[k] as int]) == Some(queue@[k] as int)
                    && reachable(es, start@, cv[queue@[k] as int]),
            forall|c: int| 0 <= c < n && #[trigger] flags@[c] ==> exists|k: int|
                0 <= k < queue@.len() && queue@[k] == c,
            forall|k: int, e: int|
                #![trigger queue@[k], es[e]]
                0 <= k < head && 0 <= e < es.len() && es[e].from@ == cv[queue@[k] as int]
                    ==> target_flagged(cv, flags@, es[e].to@),
        decreases n - head,
    {
        proof {
            lemma_count_le_len(flags@);
        }
        let u = queue[head];
        let ghost x = cv[u as int];
        let ghost flags0 = flags@;
        let ghost q0 = queue@;
        for e in 0..edges.len()
            invariant
                n == cands.len() == flags@.len(),
                cv == cands@.map_values(|v: Vec<char>| v@),
                cv == candidates(es, start@),
                es == edges@,
                head < queue.len(),
                u == queue@[head as int],
                u < n,
                x == cv[u as int],
                reachable(es, start@, x),
                queue@.len() == count(flags@, is_true()),
                queue@.len() >= q0.len(),
                forall|k: int| 0 <= k < q0.len() ==> queue@[k] == q0[k],
                queue@[0] == 0,
                forall|c: int| 0 <= c < n && flags0[c] ==> flags@[c],
                forall|k: int|
                    0 <= k < queue@.len() ==> #[trigger] queue@[k] < n && flags@[queue@[k] as int]
                        && first_index(cv, cv[queue@[k] as int]) == Some(queue@[k] as int)
                        && reachable(es, start@, cv[queue@[k] as int]),
                forall|c: int| 0 <= c < n && #[trigger] flags@[c] ==> exists|k: int|
                    0 <= k < queue@.len() && queue@[k] == c,
                forall|k: int, e2: int|
                    #![trigger q0[k], es[e2]]
                    0 <= k < head && 0 <= e2 < es.len() && es[e2].from@ == cv[q0[k] as int]
                        ==> target_flagged(cv, flags0, es[e2].to@),
                forall|e2: int|
                    0 <= e2 < e && #[trigger] es[e2].from@ == x ==> target_flagged(cv, flags@, es[e2].to@),
        {
            let from = chars_of(edges[e].from.as_str());
            if seq_eq(&from, &cands[u]) {
                let to = chars_of(edges[e].to.as_str());
                proof {
                    assert(cv[e + 1] == es[e as int].to@);
                    lemma_first_index(cv, to@);
                }
                let t = match index_of(&cands, &to) {
                    Some(t) => t,
                    None => {
                        proof {
                            assert(cv[e + 1] == to@);
                        }
                        0
                    },
                };
                proof {
                    lemma_first_index(cv, to@);
                    lemma_reach_step(es, start@, x, e as int);
                }
                if !flags[t] {
                    proof {
                        lemma_count_set_true(flags@, t as int);
                    }
                    let ghost fb = flags@;
                    let ghost qb = queue@;
                    flags.set(t, true);
                    queue.push(t);
                    proof {
                        assert forall|c: int| 0 <= c < n && #[trigger] flags@[c] implies exists|k: int|
                            0 <= k < queue@.len() && queue@[k] == c by {
                            if c == t {
                                assert(queue@[queue@.len() - 1] == c);
                            } else {
                                assert(fb[c]);
                                let k = choose|k: int| 0 <= k < qb.len() && qb[k] == c;
                                assert(queue@[k] == c);
                            }
                        }
                        assert(first_index(cv, cv[t as int]) == Some(t as int));
                    }
                }
            }
        }
        proof {
            assert forall|k: int, e2: int|
                #![trigger queue@[k], es[e2]]
                0 <= k < head + 1 && 0 <= e2 < es.len() && es[e2].from@ == cv[queue@[k] as int]
                    implies target_flagged(cv, flags@, es[e2].to@) by {
                if k < head {
                    assert(queue@[k] == q0[k]);
                    assert(target_flagged(cv, flags0, es[e2].to@));
                } else {
                    assert(es[e2].from@ == x);
                }
            }
        }
        head += 1;
    }
    // the ids the search met
    let mut r: Vec<Vec<char>> = Vec::new();
    for k in 0..queue.len()
        invariant
            r@.len() == k,
            k <= queue@.len(),
            forall|j: int| 0 <= j < k ==> #[trigger] r@[j]@ == cv[queue@[j] as int],
            forall|j: int| 0 <= j < queue@.len() ==> #[trigger] queue@[j] < n,
            n == cands.len(),
            cv == cands@.map_values(|v: Vec<char>| v@),
    {
        let c = queue[k];
        r.push(cands[c].clone());
    }
    proof {
        let rv = r@.map_values(|v: Vec<char>| v@);
        assert forall|x: Seq<char>| #![trigger reachable(es, start@, x)]
            rv.contains(x) <==> reachable(es, start@, x) by {
            if rv.contains(x) {
                let j = choose|j: int| 0 <= j < rv.len() && rv[j] == x;
                assert(r@[j]@ == cv[queue@[j] as int]);
            }
            if reachable(es, start@, x) {
                let p = choose|p: Seq<Seq<char>>| #[trigger] is_path(es, p) && p[0] == start@ && p.last() == x;
                lemma_path_found(es, start@, cv, queue@, flags@, p);
                let k = choose|k: int| 0 <= k < queue@.len() && cv[queue@[k] as int] == x;
                assert(rv[k] == x);
            }
        }
    }
    r
}

/// The candidate slot of id `to` is flagged.
pub open spec fn target_flagged(cv: Seq<Seq<char>>, flags: Seq<bool>, to: Seq<char>) -> bool {
    match first_index(cv, to) {
        Some(t) => 0 <= t < flags.len() && flags[t],
        None => false,
    }
}

proof fn lemma_count_zero(s: Seq<bool>)
    requires
        forall|j: int| 0 <= j < s.len() ==> !s[j],
    ensures
        count(s, is_true()) == 0,
    decreases s.len(),
{
    if s.len() > 0 {
        lemma_count_zero(s.drop_last());
    }
}

/// Every id on a path from the start was met by a search that closed over
/// the edges of every id it met.
proof fn lemma_path_found(
    es: Seq<Edge>,
    s: Seq<char>,
    cv: Seq<Seq<char>>,
    queue: Seq<usize>,
    flags: Seq<bool>,
    p: Seq<Seq<char>>,
)
    requires
        is_path(es, p),
        p[0] == s,
        cv == candidates(es, s),
        flags.len() == cv.len(),
        queue.len() >= 1,
        queue[0] == 0,
        forall|k: int| 0 <= k < queue.len() ==> #[trigger] queue[k] < cv.len(),
        forall|c: int| 0 <= c < cv.len() && #[trigger] flags[c] ==> exists|k: int|
            0 <= k < queue.len() && queue[k] == c,
        forall|k: int, e: int|
            #![trigger queue[k], es[e]]
            0 <= k < queue.len() && 0 <= e < es.len() && es[e].from@ == cv[queue[k] as int]
                ==> target_flagged(cv, flags, es[e].to@),
    ensures
        exists|k: int| 0 <= k < queue.len() && cv[queue[k] as int] == p.last(),
    decreases p.len(),
{
    if p.len() == 1 {
        assert(cv[queue[0] as int] == p.last());
    } else {
        let q = p.drop_last();
        assert forall|i: int| 0 <= i < q.len() - 1 implies #[trigger] has_edge(es, q[i], q[i + 1]) by {
            assert(has_edge(es, p[i], p[i + 1]));
        }
        lemma_path_found(es, s, cv, queue, flags, q);
        let k = choose|k: int| 0 <= k < queue.len() && cv[queue[k] as int] == q.last();
        let i = p.len() - 2;
        assert(has_edge(es, p[i], p[i + 1]));
        let e = choose|e: int| 0 <= e < es.len() && #[trigger] es[e].from@ == p[i] && es[e].to@
            == p[i + 1];
        assert(es[e].from@ == cv[queue[k] as int]);
        let t = first_index(cv, es[e].to@)->Some_0;
        assert(flags[t]);
        lemma_first_index(cv, es[e].to@);
        let k2 = choose|k2: int| 0 <= k2 < queue.len() && queue[k2] == t;
        assert(cv[queue[k2] as int] == p.last());
    }
}

// ---------------------------------------------------------------------------
// Sorting ids
// ---------------------------------------------------------------------------

/// `s` is in non-decreasing lexicographic order.
pub open spec fn sorted_lex(s: Seq<Seq<char>>) -> bool {
    forall|i: int, j: int| 0 <= i < j < s.len() ==> !lex_lt(#[trigger] s[j], #[trigger] s[i])
}

pub(crate) proof fn lemma_lex_trans(a: Seq<char>, b: Seq<char>, c: Seq<char>)
    requires
        lex_lt(a, b),
        lex_lt(b, c),
    ensures
        lex_lt(a, c),
    decreases a.len(),
{
    if a.len() > 0 && b.len() > 0 && c.len() > 0 {
        if a[0] == b[0] && b[0] == c[0] {
            lemma_lex_trans(a.drop_first(), b.drop_first(), c.drop_first());
        }
    }
}

pub(crate) proof fn lemma_lex_irrefl(a: Seq<char>)
    ensures
        !lex_lt(a, a),
    decreases a.len(),
{
    if a.len() > 0 {
        lemma_lex_irrefl(a.drop_first());
    }
}

pub fn lex_less(a: &Vec<char>, b: &Vec<char>) -> (r: bool)
    ensures
        r == lex_lt(a@, b@),
{
    let mut i: usize = 0;
    assert(a@.skip(0) =~= a@);
    assert(b@.skip(0) =~= b@);
    while i < a.len() && i < b.len() && a[i] == b[i]
        invariant
            i <= a.len(),
            i <= b.len(),
            forall|j: int| 0 <= j < i ==> a@[j] == b@[j],
            lex_lt(a@, b@) == lex_lt(a@.skip(i as int), b@.skip(i as int)),
        decreases a.len() - i,
    {
        proof {
            assert(a@.skip(i as int).drop_first() =~= a@.skip(i + 1));
            assert(b@.skip(i as int).drop_first() =~= b@.skip(i + 1));
        }
        i += 1;
    }
    if i == a.len() {
        i < b.len()
    } else if i == b.len() {
        false
    } else {
        a[i] < b[i]
    }
}

/// The ids sorted in lexicographic order.
pub fn sort_ids(v: Vec<Vec<char>>) -> (r: Vec<Vec<char>>)
    ensures
        sorted_lex(r@.map_values(|x: Vec<char>| x@)),
        r@.map_values(|x: Vec<char>| x@).to_multiset() == v@.map_values(|x: Vec<char>| x@).to_multiset(),
{
    let mut r: Vec<Vec<char>> = Vec::new();
    let ghost vv = v@.map_values(|x: Vec<char>| x@);
    assert(vv.take(0) =~= Seq::<Seq<char>>::empty());
    assert(r@.map_values(|x: Vec<char>| x@) =~= Seq::<Seq<char>>::empty());
    for k in 0..v.len()
        invariant
            vv == v@.map_values(|x: Vec<char>| x@),
            sorted_lex(r@.map_values(|x: Vec<char>| x@)),
            r@.map_values(|x: Vec<char>| x@).to_multiset() == vv.take(k as int).to_multiset(),
    {
        let x = v[k].clone();
        let ghost rv = r@.map_values(|y: Vec<char>| y@);
        let mut p: usize = 0;
        while p < r.len() && !lex_less(&x, &r[p])
            invariant
                p <= r.len(),
                rv == r@.map_values(|y: Vec<char>| y@),
                forall|j: int| 0 <= j < p ==> !lex_lt(x@, rv[j]),
            decreases r.len() - p,
        {
            p += 1;
        }
        r.insert(p, x);
        proof {
            let nv = r@.map_values(|y: Vec<char>| y@);
            assert(nv =~= rv.insert(p as int, x@));
            assert(nv[p as int] == x@);
            assert(p < rv.len() ==> lex_lt(x@, rv[p as int]));
            assert forall|i: int, j: int| 0 <= i < j < nv.len() implies !lex_lt(
                #[trigger] nv[j],
                #[trigger] nv[i],
            ) by {
                if j < p {
                    assert(nv[i] == rv[i] && nv[j] == rv[j]);
                } else if j == p {
                    assert(nv[i] == rv[i]);
                    assert(!lex_lt(x@, rv[i]));
                } else if i < p {
                    assert(nv[i] == rv[i] && nv[j] == rv[j - 1]);
                    assert(!lex_lt(rv[j - 1], rv[i]));
                } else if i == p {
                    assert(nv[j] == rv[j - 1]);
                    assert(p < rv.len());
                    if lex_lt(rv[j - 1], x@) {
                        lemma_lex_trans(rv[j - 1], x@, rv[p as int]);
                        if j - 1 > p {
                            assert(!lex_lt(rv[j - 1], rv[p as int]));
                        } else {
                            lemma_lex_irrefl(rv[p as int]);
                        }
                    }
                } else {
                    assert(nv[i] == rv[i - 1] && nv[j] == rv[j - 1]);
                    assert(!lex_lt(rv[j - 1], rv[i - 1]));
                }
            }
            vstd::seq_lib::to_multiset_insert(rv, p as int, x@);
            assert(vv.take(k + 1) =~= vv.take(k as int).push(vv[k as int]));
            vstd::seq_lib::to_multiset_build(vv.take(k as int), vv[k as int]);
        }
    }
    proof {
        lemma_take_full(vv);
    }
    r
}


/// Of two different sequences, one sorts before the other.
pub proof fn lemma_lex_total(a: Seq<char>, b: Seq<char>)
    requires
        !lex_lt(a, b),
        !lex_lt(b, a),
    ensures
        a == b,
    decreases a.len(),
{
    if a.len() > 0 && b.len() > 0 {
        if a[0] == b[0] {
            lemma_lex_total(a.drop_first(), b.drop_first());
            assert(a =~= seq![a[0]] + a.drop_first());
            assert(b =~= seq![b[0]] + b.drop_first());
        }
    }
}

/// The elements of `s` in lexicographic order.
pub open spec fn sorted_order(s: Seq<Seq<char>>) -> Seq<Seq<char>> {
    choose|t: Seq<Seq<char>>| sorted_lex(t) && t.to_multiset() == s.to_multiset()
}

/// Two sorted sequences with the same elements are equal.
pub proof fn lemma_sorted_unique(a: Seq<Seq<char>>, b: Seq<Seq<char>>)
    requires
        sorted_lex(a),
        sorted_lex(b),
        a.to_multiset() == b.to_multiset(),
    ensures
        a == b,
    decreases a.len(),
{
    broadcast use vstd::seq_lib::to_multiset_contains, vstd::seq_lib::to_multiset_len;

    if a.len() == 0 {
        assert(b.to_multiset().len() == 0);
        assert(b =~= a);
    } else {
        assert(a.to_multiset().len() == a.len());
        assert(b.len() == a.len());
        assert(a.to_multiset().count(a[0]) > 0) by {
            assert(a.contains(a[0]));
        }
        assert(b.contains(a[0]));
        assert(a.contains(b[0])) by {
            assert(b.contains(b[0]));
            assert(b.to_multiset().count(b[0]) > 0);
        }
        let i = choose|i: int| 0 <= i < b.len() && b[i] == a[0];
        let j = choose|j: int| 0 <= j < a.len() && a[j] == b[0];
        assert(!lex_lt(a[0], b[0])) by {
            if i > 0 {
                assert(!lex_lt(b[i], b[0]));
            } else {
                lemma_lex_irrefl(b[0]);
            }
        }
        assert(!lex_lt(b[0], a[0])) by {
            if j > 0 {
                assert(!lex_lt(a[j], a[0]));
            } else {
                lemma_lex_irrefl(a[0]);
            }
        }
        lemma_lex_total(a[0], b[0]);
        vstd::seq_lib::to_multiset_remove(a, 0);
        vstd::seq_lib::to_multiset_remove(b, 0);
        assert(a.remove(0) =~= a.drop_first());
        assert(b.remove(0) =~= b.drop_first());
        lemma_sorted_unique(a.drop_first(), b.drop_first());
        assert(a =~= seq![a[0]] + a.drop_first());
        assert(b =~= seq![b[0]] + b.drop_first());
    }
}

/// A sorted sequence with the elements of `s` is `sorted_order(s)`.
pub proof fn lemma_sorted_order(s: Seq<Seq<char>>, t: Seq<Seq<char>>)
    requires
        sorted_lex(t),
        t.to_multiset() == s.to_multiset(),
    ensures
        sorted_order(s) == t,
{
    let u = sorted_order(s);
    assert(sorted_lex(u) && u.to_multiset() == s.to_multiset());
    lemma_sorted_unique(u, t);
}

} // verus!
