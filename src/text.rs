use vstd::prelude::*;

verus! {

/// What `str::trim` leaves of `s`.
pub uninterp spec fn trimmed(s: Seq<char>) -> Seq<char>;

/// The pieces of `s` between line feeds, in order; always at least one.
pub open spec fn lines_of(s: Seq<char>) -> Seq<Seq<char>>
    decreases s.len(),
{
    if s.len() == 0 {
        seq![Seq::<char>::empty()]
    } else {
        let prev = lines_of(s.drop_last());
        if s.last() == '\n' {
            prev.push(Seq::<char>::empty())
        } else {
            prev.update(prev.len() - 1, prev.last().push(s.last()))
        }
    }
}

/// The trimmed texts of `ts` that are not empty, in order.
pub open spec fn kept(ts: Seq<Seq<char>>) -> Seq<Seq<char>>
    decreases ts.len(),
{
    if ts.len() == 0 {
        Seq::empty()
    } else {
        let rest = kept(ts.drop_last());
        let t = trimmed(ts.last());
        if t.len() == 0 {
            rest
        } else {
            rest.push(t)
        }
    }
}

/// The parts concatenated with `sep` between each two.
pub open spec fn join_with(parts: Seq<Seq<char>>, sep: Seq<char>) -> Seq<char>
    decreases parts.len(),
{
    if parts.len() == 0 {
        Seq::empty()
    } else if parts.len() == 1 {
        parts[0]
    } else {
        join_with(parts.drop_last(), sep) + sep + parts.last()
    }
}

/// Relies on `str::trim`: the result is `s` without leading and trailing whitespace.
#[verifier::external_body]
pub(crate) fn trim(s: &str) -> (r: String)
    ensures
        r@ == trimmed(s@),
{
    s.trim().to_string()
}

/// Relies on `str::split` with the pattern `'\n'`: the pieces between line feeds.
#[verifier::external_body]
fn split_lines(s: &str) -> (r: Vec<String>)
    ensures
        r.deep_view() == lines_of(s@),
{
    s.split('\n').map(|p| p.to_string()).collect()
}

/// The trimmed text, or `None` where nothing but whitespace is left.
pub fn trim_str(t: &str) -> (r: Option<String>)
    ensures
        trimmed(t@).len() == 0 ==> r is None,
        trimmed(t@).len() != 0 ==> r is Some && r->0@ == trimmed(t@),
{
    let t = trim(t);
    let ts = t.as_str();
    if ts.unicode_len() == 0 {
        None
    } else {
        Some(t)
    }
}

/// Each text trimmed, the ones left empty dropped.
pub fn keep_trimmed(ts: &Vec<String>) -> (r: Vec<String>)
    ensures
        r.deep_view() == kept(ts.deep_view()),
{
    let mut r: Vec<String> = Vec::new();
    let mut i: usize = 0;
    while i < ts.len()
        invariant
            i <= ts.len(),
            r.deep_view() == kept(ts.deep_view().take(i as int)),
        decreases ts.len() - i,
    {
        proof {
            assert(ts.deep_view().take(i + 1).drop_last() =~= ts.deep_view().take(i as int));
        }
        match trim_str(ts[i].as_str()) {
            Some(t) => {
                r.push(t);
            },
            None => {},
        }
        proof {
            assert(r.deep_view() =~= kept(ts.deep_view().take(i + 1)));
        }
        i = i + 1;
    }
    proof {
        assert(ts.deep_view().take(ts.len() as int) =~= ts.deep_view());
    }
    r
}

/// The parts concatenated with `sep` between each two.
pub fn join(parts: &Vec<String>, sep: &str) -> (r: String)
    ensures
        r@ == join_with(parts.deep_view(), sep@),
{
    let mut r = String::new();
    let mut i: usize = 0;
    while i < parts.len()
        invariant
            i <= parts.len(),
            r@ == join_with(parts.deep_view().take(i as int), sep@),
        decreases parts.len() - i,
    {
        proof {
            assert(parts.deep_view().take(i + 1).drop_last() =~= parts.deep_view().take(i as int));
        }
        if i > 0 {
            r.append(sep);
        }
        r.append(parts[i].as_str());
        proof {
            if i == 0 {
                assert(r@ =~= parts.deep_view().take(1)[0]);
            } else {
                assert(r@ =~= join_with(parts.deep_view().take(i + 1), sep@));
            }
        }
        i = i + 1;
    }
    proof {
        assert(parts.deep_view().take(parts.len() as int) =~= parts.deep_view());
    }
    r
}

/// The text split at line feeds, each piece trimmed, the empty ones dropped,
/// and the rest joined with single spaces.
pub fn squeeze_lines(t: &str) -> (r: String)
    ensures
        r@ == join_with(kept(lines_of(t@)), " "@),
{
    let lines = split_lines(t);
    let parts = keep_trimmed(&lines);
    join(&parts, " ")
}

} // verus!
