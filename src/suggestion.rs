use vstd::prelude::*;
use crate::entry::SingleEntry;

verus! {

/// What `str::to_lowercase` makes of `s`.
pub uninterp spec fn lower_of(s: Seq<char>) -> Seq<char>;

/// Relies on `str::to_lowercase`: the lower-case form, which depends on the
/// characters alone.
#[verifier::external_body]
fn lowercase(s: &str) -> (r: String)
    ensures
        r@ == lower_of(s@),
{
    s.to_lowercase()
}

pub open spec fn min3(x: nat, y: nat, z: nat) -> nat {
    if x <= y && x <= z {
        x
    } else if y <= z {
        y
    } else {
        z
    }
}

/// The edit distance between the first `i` characters of `a` and the first
/// `j` characters of `b`: the fewest insertions, deletions and substitutions
/// that turn one into the other.
pub open spec fn lev(a: Seq<char>, b: Seq<char>, i: nat, j: nat) -> nat
    recommends
        i <= a.len(),
        j <= b.len(),
    decreases i + j,
{
    if i == 0 {
        j
    } else if j == 0 {
        i
    } else {
        min3(
            lev(a, b, (i - 1) as nat, j) + 1,
            lev(a, b, i, (j - 1) as nat) + 1,
            lev(a, b, (i - 1) as nat, (j - 1) as nat) + if a[i - 1] == b[j - 1] {
                0nat
            } else {
                1nat
            },
        )
    }
}

/// The edit distance between `a` and `b`.
pub open spec fn edit_distance(a: Seq<char>, b: Seq<char>) -> nat {
    lev(a, b, a.len(), b.len())
}

/// The distance of a candidate from the query, ignoring case.
pub open spec fn distance_to(query: Seq<char>, word: Seq<char>) -> nat {
    edit_distance(lower_of(query), lower_of(word))
}

/// `a` comes no later than `b` in code point order.
pub open spec fn lex_le(a: Seq<char>, b: Seq<char>) -> bool
    decreases a.len(),
{
    if a.len() == 0 {
        true
    } else if b.len() == 0 {
        false
    } else if a[0] != b[0] {
        a[0] < b[0]
    } else {
        lex_le(a.drop_first(), b.drop_first())
    }
}

/// The order of candidates: by distance, then alphabetically.
pub open spec fn ranks_before(d1: nat, w1: Seq<char>, d2: nat, w2: Seq<char>) -> bool {
    d1 < d2 || (d1 == d2 && lex_le(w1, w2))
}

proof fn lemma_lev_le_max(a: Seq<char>, b: Seq<char>, i: nat, j: nat)
    ensures
        lev(a, b, i, j) <= if i >= j { i } else { j },
    decreases i + j,
{
    if i > 0 && j > 0 {
        lemma_lev_le_max(a, b, (i - 1) as nat, (j - 1) as nat);
    }
}

proof fn lemma_lev_same(a: Seq<char>, i: nat)
    ensures
        lev(a, a, i, i) == 0,
    decreases i,
{
    if i > 0 {
        lemma_lev_same(a, (i - 1) as nat);
    }
}

proof fn lemma_lex_total(a: Seq<char>, b: Seq<char>)
    ensures
        lex_le(a, b) || lex_le(b, a),
    decreases a.len(),
{
    if a.len() > 0 && b.len() > 0 && a[0] == b[0] {
        lemma_lex_total(a.drop_first(), b.drop_first());
    }
}

proof fn lemma_lex_trans(a: Seq<char>, b: Seq<char>, c: Seq<char>)
    requires
        lex_le(a, b),
        lex_le(b, c),
    ensures
        lex_le(a, c),
    decreases a.len(),
{
    if a.len() > 0 && b.len() > 0 && c.len() > 0 && a[0] == b[0] && b[0] == c[0] {
        lemma_lex_trans(a.drop_first(), b.drop_first(), c.drop_first());
    }
}

proof fn lemma_ranks_total(d1: nat, w1: Seq<char>, d2: nat, w2: Seq<char>)
    ensures
        ranks_before(d1, w1, d2, w2) || ranks_before(d2, w2, d1, w1),
{
    lemma_lex_total(w1, w2);
}

proof fn lemma_ranks_trans(d1: nat, w1: Seq<char>, d2: nat, w2: Seq<char>, d3: nat, w3: Seq<char>)
    requires
        ranks_before(d1, w1, d2, w2),
        ranks_before(d2, w2, d3, w3),
    ensures
        ranks_before(d1, w1, d3, w3),
{
    if d1 == d2 && d2 == d3 {
        lemma_lex_trans(w1, w2, w3);
    }
}

/// The characters of `s`, in order.
fn chars_of(s: &str) -> (r: Vec<char>)
    ensures
        r@ == s@,
{
    let n = s.unicode_len();
    let mut r: Vec<char> = Vec::new();
    let mut i: usize = 0;
    while i < n
        invariant
            n == s@.len(),
            i <= n,
            r@ == s@.take(i as int),
        decreases n - i,
    {
        r.push(s.get_char(i));
        proof {
            assert(r@ =~= s@.take(i + 1));
        }
        i = i + 1;
    }
    proof {
        assert(s@.take(n as int) =~= s@);
    }
    r
}

/// The edit distance between two character sequences.
pub fn edit_distance_of(a: &Vec<char>, b: &Vec<char>) -> (r: usize)
    ensures
        r == edit_distance(a@, b@),
{
    let n = a.len();
    let m = b.len();
    let mut prev: Vec<usize> = Vec::new();
    prev.push(0);
    let mut j: usize = 0;
    while j < m
        invariant
            m == b.len(),
            j <= m,
            prev@.len() == j + 1,
            forall|k: int| 0 <= k <= j ==> prev@[k] == lev(a@, b@, 0, k as nat),
        decreases m - j,
    {
        prev.push(j + 1);
        j = j + 1;
    }
    let row_len = prev.len();
    assert(row_len == m + 1);
    let mut i: usize = 0;
    while i < n
        invariant
            n == a.len(),
            m == b.len(),
            m < usize::MAX,
            i <= n,
            prev@.len() == m + 1,
            forall|k: int| 0 <= k <= m ==> prev@[k] == lev(a@, b@, i as nat, k as nat),
        decreases n - i,
    {
        let mut cur: Vec<usize> = Vec::new();
        cur.push(i + 1);
        let mut j: usize = 0;
        while j < m
            invariant
                n == a.len(),
                m == b.len(),
                i < n,
                j <= m,
                m < usize::MAX,
                prev@.len() == m + 1,
                cur@.len() == j + 1,
                forall|k: int| 0 <= k <= m ==> prev@[k] == lev(a@, b@, i as nat, k as nat),
                forall|k: int| 0 <= k <= j ==> cur@[k] == lev(a@, b@, (i + 1) as nat, k as nat),
            decreases m - j,
        {
            proof {
                lemma_lev_le_max(a@, b@, i as nat, (j + 1) as nat);
                lemma_lev_le_max(a@, b@, i as nat, j as nat);
            }
            let x = prev[j + 1];
            let y = cur[j];
            let mxy = if x <= y { x } else { y };
            let c: usize = if a[i] == b[j] { 0 } else { 1 };
            let s = prev[j] + c;
            let v = if s <= mxy + 1 { s } else { mxy + 1 };
            cur.push(v);
            j = j + 1;
        }
        prev = cur;
        i = i + 1;
    }
    prev[m]
}

/// `a` comes no later than `b` in code point order.
fn lex_le_str(a: &str, b: &str) -> (r: bool)
    ensures
        r == lex_le(a@, b@),
{
    let x = chars_of(a);
    let y = chars_of(b);
    let mut i: usize = 0;
    proof {
        assert(x@.subrange(0, x@.len() as int) =~= x@);
        assert(y@.subrange(0, y@.len() as int) =~= y@);
    }
    while i < x.len() && i < y.len() && x[i] == y[i]
        invariant
            i <= x.len(),
            i <= y.len(),
            lex_le(x@, y@) == lex_le(x@.subrange(i as int, x@.len() as int), y@.subrange(i as int, y@.len() as int)),
        decreases x.len() - i,
    {
        proof {
            let xs = x@.subrange(i as int, x@.len() as int);
            let ys = y@.subrange(i as int, y@.len() as int);
            assert(xs.drop_first() =~= x@.subrange(i + 1, x@.len() as int));
            assert(ys.drop_first() =~= y@.subrange(i + 1, y@.len() as int));
        }
        i = i + 1;
    }
    proof {
        assert(x@.subrange(0, x@.len() as int) =~= x@);
        assert(y@.subrange(0, y@.len() as int) =~= y@);
    }
    if i == x.len() {
        true
    } else if i == y.len() {
        false
    } else {
        x[i] < y[i]
    }
}

proof fn lemma_lex_refl(a: Seq<char>)
    ensures
        lex_le(a, a),
    decreases a.len(),
{
    if a.len() > 0 {
        lemma_lex_refl(a.drop_first());
    }
}

/// A reference word proposed in place of a word that has no entry, with its
/// edit distance from that word.
#[derive(Clone, Debug)]
pub struct SuggestionCandidate {
    pub word: String,
    pub distance: usize,
}

/// The rank of a candidate: its distance, then its word.
pub open spec fn key(c: SuggestionCandidate) -> (nat, Seq<char>) {
    (c.distance as nat, c.word@)
}

pub open spec fn keys(r: Seq<SuggestionCandidate>) -> Seq<(nat, Seq<char>)> {
    r.map_values(|c: SuggestionCandidate| key(c))
}

pub open spec fn rb(x: (nat, Seq<char>), y: (nat, Seq<char>)) -> bool {
    ranks_before(x.0, x.1, y.0, y.1)
}

/// Each rank comes no later than the next one.
pub open spec fn sorted(ks: Seq<(nat, Seq<char>)>) -> bool {
    forall|i: int| 0 <= i < ks.len() - 1 ==> rb(#[trigger] ks[i], ks[i + 1])
}

/// The rank that the `j`-th reference word has for `query`.
pub open spec fn ref_key(query: Seq<char>, reference: Seq<Seq<char>>, j: int) -> (nat, Seq<char>) {
    (distance_to(query, reference[j]), reference[j])
}

/// Each candidate is a reference word with its distance from the query.
pub open spec fn from_reference(ks: Seq<(nat, Seq<char>)>, query: Seq<char>, reference: Seq<Seq<char>>) -> bool {
    forall|i: int|
        0 <= i < ks.len() ==> exists|j: int|
            0 <= j < reference.len() && #[trigger] ks[i] == ref_key(query, reference, j)
}

/// Every one of the first `n` reference words is listed, or the list is full
/// and its last candidate ranks no later than that word.
pub open spec fn lowest(ks: Seq<(nat, Seq<char>)>, query: Seq<char>, reference: Seq<Seq<char>>, n: int, limit: nat) -> bool {
    forall|j: int|
        0 <= j < n ==> ks.contains(#[trigger] ref_key(query, reference, j)) || (ks.len() == limit && (
        limit == 0 || rb(ks.last(), ref_key(query, reference, j))))
}

/// Whether `a` ranks no later than `b`.
fn comes_first(a: &SuggestionCandidate, b: &SuggestionCandidate) -> (r: bool)
    ensures
        r == rb(key(*a), key(*b)),
{
    a.distance < b.distance || (a.distance == b.distance && lex_le_str(a.word.as_str(), b.word.as_str()))
}

/// Inserts `c` into the ranked list `best`, keeping at most `limit` candidates.
fn insert_ranked(best: &mut Vec<SuggestionCandidate>, c: SuggestionCandidate, limit: usize)
    requires
        0 < limit,
        old(best)@.len() <= limit,
        sorted(keys(old(best)@)),
    ensures
        ({
            let ks = keys(old(best)@);
            let ns = keys(final(best)@);
            &&& sorted(ns)
            &&& ns.len() == if ks.len() < limit { ks.len() + 1 } else { limit as nat }
            &&& forall|i: int| 0 <= i < ns.len() ==> #[trigger] ns[i] == key(c) || ks.contains(ns[i])
            &&& ns.contains(key(c)) || (ns.len() == limit && rb(ns.last(), key(c)))
            &&& forall|x: (nat, Seq<char>)| #[trigger] ks.contains(x) ==> ns.contains(x) || (ns.len() == limit && rb(ns.last(), x))
            &&& ks.len() == limit ==> rb(ns.last(), ks.last())
        }),
{
    let ghost ks = keys(best@);
    let ghost kc = key(c);
    let mut p: usize = 0;
    let mut more = true;
    while more
        invariant
            ks == keys(best@),
            kc == key(c),
            p <= best@.len(),
            forall|k: int| 0 <= k < p ==> rb(#[trigger] ks[k], kc),
            !more ==> p == best@.len() || !rb(ks[p as int], kc),
        decreases best@.len() - p, if more { 1int } else { 0int },
    {
        if p < best.len() && comes_first(&best[p], &c) {
            proof {
                assert(ks[p as int] == key(best@[p as int]));
            }
            p = p + 1;
        } else {
            proof {
                if p < best@.len() {
                    assert(ks[p as int] == key(best@[p as int]));
                }
            }
            more = false;
        }
    }
    proof {
        if p < ks.len() {
            lemma_ranks_total(ks[p as int].0, ks[p as int].1, kc.0, kc.1);
        }
    }
    let old_len = best.len();
    best.insert(p, c);
    let ghost ms = keys(best@);
    proof {
        assert(ms =~= ks.insert(p as int, kc));
        assert forall|i: int| 0 <= i < ms.len() - 1 implies rb(#[trigger] ms[i], ms[i + 1]) by {
            if i + 1 < p {
            } else if i + 1 == p {
            } else if i == p {
            } else {
                assert(ms[i] == ks[i - 1]);
                assert(ms[i + 1] == ks[i]);
            }
        }
        assert(ms[p as int] == kc);
        assert forall|x: (nat, Seq<char>)| #[trigger] ks.contains(x) implies ms.contains(x) by {
            let k = choose|k: int| 0 <= k < ks.len() && ks[k] == x;
            if k < p {
                assert(ms[k] == x);
            } else {
                assert(ms[k + 1] == x);
            }
        }
    }
    if old_len == limit {
        best.pop();
        proof {
            let ns = keys(best@);
            assert(ns =~= ms.drop_last());
            assert(rb(ms[ms.len() - 2], ms.last()));
            assert forall|i: int| 0 <= i < ns.len() - 1 implies rb(#[trigger] ns[i], ns[i + 1]) by {
                assert(ns[i] == ms[i]);
                assert(ns[i + 1] == ms[i + 1]);
            }
            assert forall|i: int| 0 <= i < ns.len() implies #[trigger] ns[i] == kc || ks.contains(ns[i]) by {
                assert(ns[i] == ms[i]);
                if i < p {
                    assert(ks[i] == ns[i]);
                } else if i > p {
                    assert(ks[i - 1] == ns[i]);
                }
            }
            assert forall|x: (nat, Seq<char>)| #[trigger] ms.contains(x) implies ns.contains(x) || rb(ns.last(), x) by {
                let k = choose|k: int| 0 <= k < ms.len() && ms[k] == x;
                if k < ms.len() - 1 {
                    assert(ns[k] == x);
                } else {
                    assert(ns.last() == ms[ms.len() - 2]);
                }
            }
            assert(ms.contains(kc)) by {
                assert(ms[p as int] == kc);
            }
            if p == old_len {
                assert(ns =~= ks);
                lemma_lex_refl(ks.last().1);
            } else {
                assert(ms.last() == ks.last());
            }
        }
    } else {
        proof {
            assert forall|i: int| 0 <= i < ms.len() implies #[trigger] ms[i] == kc || ks.contains(ms[i]) by {
                if i < p {
                    assert(ks[i] == ms[i]);
                } else if i > p {
                    assert(ks[i - 1] == ms[i]);
                }
            }
            assert(ms.contains(kc)) by {
                assert(ms[p as int] == kc);
            }
        }
    }
}

/// `r` holds the `limit` reference words nearest to `query` (all of them where
/// there are fewer), ranked by distance, then alphabetically.
pub open spec fn ranked_suggestions(r: Seq<SuggestionCandidate>, query: Seq<char>, reference: Seq<Seq<char>>, limit: nat) -> bool {
    &&& r.len() == if limit <= reference.len() { limit as int } else { reference.len() as int }
    &&& sorted(keys(r))
    &&& from_reference(keys(r), query, reference)
    &&& lowest(keys(r), query, reference, reference.len() as int, limit)
}

/// What a query comes to: its entry, or suggestions where it has none.
pub enum Resolution {
    Found(SingleEntry),
    Suggestions(Vec<SuggestionCandidate>),
}

/// An entry that was found is shown; an empty one gives way to the `limit`
/// reference words nearest to the query.
pub fn resolve(entry: SingleEntry, query: &str, reference: &Vec<String>, limit: usize) -> (r: Resolution)
    ensures
        !entry.spec_not_found() ==> r == Resolution::Found(entry),
        entry.spec_not_found() ==> r is Suggestions
            && ranked_suggestions(r->Suggestions_0@, query@, reference.deep_view(), limit as nat),
{
    if entry.not_found() {
        Resolution::Suggestions(suggest(query, reference, limit))
    } else {
        Resolution::Found(entry)
    }
}

/// Ranks the reference words by their edit distance from `query`, ignoring
/// case, alphabetically on ties, and keeps the first `limit` of them.
pub fn suggest(query: &str, reference: &Vec<String>, limit: usize) -> (r: Vec<SuggestionCandidate>)
    ensures
        ranked_suggestions(r@, query@, reference.deep_view(), limit as nat),
{
    let ghost refs = reference.deep_view();
    let lq = lowercase(query);
    let q = chars_of(lq.as_str());
    let mut best: Vec<SuggestionCandidate> = Vec::new();
    let mut idx: usize = 0;
    while idx < reference.len()
        invariant
            q@ == lower_of(query@),
            refs == reference.deep_view(),
            idx <= reference@.len(),
            best@.len() == if limit <= idx { limit as int } else { idx as int },
            sorted(keys(best@)),
            from_reference(keys(best@), query@, refs),
            lowest(keys(best@), query@, refs, idx as int, limit as nat),
        decreases reference@.len() - idx,
    {
        if limit > 0 {
            let lw = lowercase(reference[idx].as_str());
            let w = chars_of(lw.as_str());
            let d = edit_distance_of(&q, &w);
            let c = SuggestionCandidate { word: reference[idx].clone(), distance: d };
            let ghost ks = keys(best@);
            let ghost kc = key(c);
            proof {
                assert(refs[idx as int] == reference[idx as int]@);
                assert(kc == ref_key(query@, refs, idx as int));
            }
            insert_ranked(&mut best, c, limit);
            proof {
                let ns = keys(best@);
                assert forall|i: int|
                    0 <= i < ns.len() implies exists|j: int|
                        0 <= j < refs.len() && #[trigger] ns[i] == ref_key(query@, refs, j) by {
                    if ns[i] == kc {
                        assert(ns[i] == ref_key(query@, refs, idx as int));
                    } else {
                        let k = choose|k: int| 0 <= k < ks.len() && ks[k] == ns[i];
                        assert(exists|j: int| 0 <= j < refs.len() && ks[k] == ref_key(query@, refs, j));
                    }
                }
                assert forall|j: int| 0 <= j < idx + 1 implies ns.contains(
                    #[trigger] ref_key(query@, refs, j),
                ) || (ns.len() == limit && (limit == 0 || rb(ns.last(), ref_key(query@, refs, j)))) by {
                    let x = ref_key(query@, refs, j);
                    if j == idx {
                    } else if ks.contains(x) {
                    } else {
                        assert(ks.len() == limit && rb(ks.last(), x));
                        assert(rb(ns.last(), ks.last()));
                        lemma_ranks_trans(ns.last().0, ns.last().1, ks.last().0, ks.last().1, x.0, x.1);
                    }
                }
            }
        }
        idx = idx + 1;
    }
    best
}

proof fn lemma_sorted_first_nearest(ks: Seq<(nat, Seq<char>)>, i: int)
    requires
        sorted(ks),
        0 <= i < ks.len(),
    ensures
        ks[0].0 <= ks[i].0,
    decreases i,
{
    if i > 0 {
        lemma_sorted_first_nearest(ks, i - 1);
        assert(rb(ks[i - 1], ks[i]));
    }
}

/// Where the query is itself a reference word, the first suggestion is at
/// distance zero; it is that word when no other reference word is at
/// distance zero.
pub proof fn lemma_exact_match_first(
    query: Seq<char>,
    reference: Seq<Seq<char>>,
    j: int,
    r: Seq<SuggestionCandidate>,
    limit: nat,
)
    requires
        0 <= j < reference.len(),
        reference[j] == query,
        0 < limit,
        ranked_suggestions(r, query, reference, limit),
    ensures
        r[0].distance == 0,
        (forall|k: int|
            0 <= k < reference.len() && distance_to(query, #[trigger] reference[k]) == 0
                ==> reference[k] == query) ==> r[0].word@ == query,
{
    let ks = keys(r);
    lemma_lev_same(lower_of(query), lower_of(query).len());
    let x = ref_key(query, reference, j);
    assert(x.0 == 0);
    if ks.contains(x) {
        let i = choose|i: int| 0 <= i < ks.len() && ks[i] == x;
        lemma_sorted_first_nearest(ks, i);
    } else {
        lemma_sorted_first_nearest(ks, ks.len() - 1);
    }
    assert(exists|jj: int| 0 <= jj < reference.len() && #[trigger] ks[0] == ref_key(query, reference, jj));
}

} // verus!
